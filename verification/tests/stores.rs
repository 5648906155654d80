use lgr_auth::banned::InMemoryBannedTokenStore;
use lgr_auth::domain::{Email, HashedPassword, Password, TwoFactorMethod, User};
use lgr_auth::errors::AuthApiError;
use lgr_auth::two_factor::{LoginAttemptId, TwoFactorCode};
use lgr_auth::two_factor_store::InMemoryTwoFactorCodeStore;
use lgr_auth::user_store::{InMemoryUserStore, UserStore};

#[test]
fn test_ban_unban_token() {
    let mut store = InMemoryBannedTokenStore::new();
    let token = "test_token";

    assert!(!store.is_token_banned(token));

    store.ban_token(token).unwrap();
    assert!(store.is_token_banned(token));

    store.unban_token(token).unwrap();
    assert!(!store.is_token_banned(token));
}

#[test]
fn test_ban_token_idempotent() {
    let mut store = InMemoryBannedTokenStore::new();
    store.ban_token("t1").unwrap();
    store.ban_token("t1").unwrap();
    assert!(store.is_token_banned("t1"));
    // One removal suffices after a double ban.
    store.unban_token("t1").unwrap();
    assert!(!store.is_token_banned("t1"));
    // Reads are stable absent mutation.
    assert!(!store.is_token_banned("t1"));
    assert!(!store.is_token_banned("t1"));
}

fn sample_user(email: &str, password: &str, two_factor: TwoFactorMethod) -> User {
    let email = Email::parse(email).unwrap();
    let p = Password::parse(password).unwrap();
    User::new(email, HashedPassword::from(&p), two_factor)
}

#[test]
fn test_user_store_add_get_validate() {
    let mut store = InMemoryUserStore::new();
    let user = sample_user("me@you.com", "password123", TwoFactorMethod::Disabled);
    assert!(store.add_user(user).is_ok());

    let email = Email::parse("me@you.com").unwrap();
    let fetched = store.get_user(&email).unwrap();
    assert_eq!(fetched.email.as_str(), "me@you.com");
    assert_eq!(fetched.password.as_str(), "hashed_password123");

    let good = Password::parse("password123").unwrap();
    assert!(store.validate_credentials(&email, &good).unwrap());

    let bad = Password::parse("wrongpassword").unwrap();
    assert!(matches!(
        store.validate_credentials(&email, &bad),
        Err(AuthApiError::InvalidCredentials)
    ));

    let missing = Email::parse("no@one.com").unwrap();
    assert!(matches!(
        store.get_user(&missing),
        Err(AuthApiError::UserNotFound)
    ));
    assert!(matches!(
        store.validate_credentials(&missing, &good),
        Err(AuthApiError::UserNotFound)
    ));
}

#[test]
fn test_user_store_duplicate_add() {
    let mut store = InMemoryUserStore::new();
    let user = sample_user("me@you.com", "password123", TwoFactorMethod::Disabled);
    let again = sample_user("me@you.com", "otherpassword", TwoFactorMethod::Email);
    assert!(store.add_user(user).is_ok());
    assert!(matches!(
        store.add_user(again),
        Err(AuthApiError::UserAlreadyExists)
    ));
}

#[test]
fn test_2fa_store_create_and_get_code() {
    let mut store = InMemoryTwoFactorCodeStore::new();
    let email = Email::parse("user@test.com").expect("valid email");
    let (login_attempt_id, _code) = store
        .new_login_attempt(&email, &TwoFactorMethod::Email)
        .expect("create login attempt");
    let (retrieved_id, _retrieved_code) = store.get_code(&email).expect("get code");
    assert_eq!(login_attempt_id, retrieved_id);
}

#[test]
fn test_2fa_store_remove_code() {
    let mut store = InMemoryTwoFactorCodeStore::new();
    let email = Email::parse("user@test.com").expect("valid email");
    let (_login_attempt_id, _code) = store
        .new_login_attempt(&email, &TwoFactorMethod::Email)
        .expect("create login attempt");
    store.remove_code(&email).expect("remove code");
    let result = store.get_code(&email);
    assert!(matches!(result, Err(AuthApiError::TwoFactorCodeNotFound)));
}

#[test]
fn test_2fa_store_verify_code() {
    let mut store = InMemoryTwoFactorCodeStore::new();
    let email = Email::parse("user@test.com").expect("valid email");
    let (login_attempt_id, code) = store
        .new_login_attempt(&email, &TwoFactorMethod::Email)
        .expect("create login attempt");
    let res = store
        .verify_code(&email, &login_attempt_id, &code)
        .expect("verify code");
    assert!(res);
}

#[test]
fn test_2fa_store_verify_code_fails() {
    let mut store = InMemoryTwoFactorCodeStore::new();
    let email = Email::parse("user@test.com").expect("valid email");
    let (login_attempt_id, code) = store
        .new_login_attempt(&email, &TwoFactorMethod::Email)
        .expect("create login attempt");

    // A random code matches the stored one only with vanishing likelihood;
    // draw until it differs to keep the test deterministic.
    let wrong_code = loop {
        let candidate = TwoFactorCode::new();
        if candidate != code {
            break candidate;
        }
    };
    let res = store
        .verify_code(&email, &login_attempt_id, &wrong_code)
        .expect("verify code");
    assert!(!res);

    let wrong_id = loop {
        let candidate = LoginAttemptId::new();
        if candidate != login_attempt_id {
            break candidate;
        }
    };
    let res = store
        .verify_code(&email, &wrong_id, &code)
        .expect("verify code");
    assert!(!res);

    let wrong_email = Email::parse("other@test.com").expect("valid email");
    let res = store.verify_code(&wrong_email, &login_attempt_id, &code);
    assert!(matches!(res, Err(AuthApiError::TwoFactorCodeNotFound)));
}

#[test]
fn test_2fa_store_overwrite_on_new_attempt() {
    let mut store = InMemoryTwoFactorCodeStore::new();
    let email = Email::parse("user@test.com").unwrap();
    let (id1, code1) = store
        .new_login_attempt(&email, &TwoFactorMethod::Email)
        .unwrap();
    let (id2, code2) = store
        .new_login_attempt(&email, &TwoFactorMethod::Email)
        .unwrap();
    let (got_id, got_code) = store.get_code(&email).unwrap();
    assert_eq!(got_id, id2);
    assert_eq!(got_code, code2);
    if id1 != id2 {
        assert!(!store.verify_code(&email, &id1, &code1).unwrap());
    }
}

#[test]
fn test_two_factor_code_shape() {
    let code = TwoFactorCode::new();
    assert_eq!(code.as_str().len(), 6);
    assert!(code.as_str().chars().all(|c| c.is_ascii_digit()));
}

#[test]
fn test_two_factor_code_try_from() {
    let valid_code = "123456".to_string();
    let invalid_code = "12345a".to_string();

    let code = TwoFactorCode::try_from(valid_code.as_str()).unwrap();
    assert_eq!(code.as_str(), valid_code);

    let err = TwoFactorCode::try_from(invalid_code.as_str()).unwrap_err();
    assert!(matches!(err, AuthApiError::InvalidData(_)));
}

#[test]
fn test_login_attempt_id_try_from() {
    let fresh = LoginAttemptId::new();
    let valid_uuid = fresh.as_str().to_string();
    let invalid_uuid = "invalid-uuid".to_string();

    let attempt_id = LoginAttemptId::try_from(valid_uuid.as_str()).unwrap();
    assert_eq!(attempt_id.as_str(), valid_uuid);

    let err = LoginAttemptId::try_from(invalid_uuid.as_str()).unwrap_err();
    assert!(matches!(err, AuthApiError::InvalidLoginAttemptId));
}

#[test]
fn test_login_attempt_id_normalises_case() {
    let id = LoginAttemptId::try_from("00000000-0000-4000-8000-00000000ABCD").unwrap();
    assert_eq!(id.as_str(), "00000000-0000-4000-8000-00000000abcd");
    assert!(LoginAttemptId::try_from("00000000-0000-4000-8000-00000000abcg").is_err());
    assert!(LoginAttemptId::try_from("00000000-0000+4000-8000-00000000abcd").is_err());
}

#[test]
fn test_login_attempt_id_shape() {
    let id = LoginAttemptId::new();
    let s = id.as_str();
    assert_eq!(s.len(), 36);
    for (i, c) in s.chars().enumerate() {
        if i == 8 || i == 13 || i == 18 || i == 23 {
            assert_eq!(c, '-');
        } else {
            assert!(c.is_ascii_hexdigit() && !c.is_ascii_uppercase());
        }
    }
}

#[test]
fn test_login_attempt_id_alternate_forms() {
    let canonical = "67e55044-10b1-426f-9247-bb680e5fe0c8";
    // Unbroken, braced and URN forms all normalise to the hyphenated form.
    let simple = "67e5504410b1426f9247bb680e5fe0c8";
    assert_eq!(LoginAttemptId::try_from(simple).unwrap().as_str(), canonical);
    let braced = "{67e55044-10b1-426f-9247-bb680e5fe0c8}";
    assert_eq!(LoginAttemptId::try_from(braced).unwrap().as_str(), canonical);
    let urn = "urn:uuid:67e55044-10b1-426f-9247-bb680e5fe0c8";
    assert_eq!(LoginAttemptId::try_from(urn).unwrap().as_str(), canonical);
    let urn_upper = "URN:UUID:67E55044-10B1-426F-9247-BB680E5FE0C8";
    assert_eq!(LoginAttemptId::try_from(urn_upper).unwrap().as_str(), canonical);

    // Ill-formed variants of each shape fail.
    assert!(LoginAttemptId::try_from("67e5504410b1426f9247bb680e5fe0cg").is_err());
    assert!(LoginAttemptId::try_from("(67e55044-10b1-426f-9247-bb680e5fe0c8)").is_err());
    assert!(LoginAttemptId::try_from("urn:guid:67e55044-10b1-426f-9247-bb680e5fe0c8").is_err());
    assert!(LoginAttemptId::try_from("67e55044-10b1-426f-9247-bb680e5fe0c").is_err());
}

#[test]
fn test_2fa_verify_accepts_simple_form_id() {
    // A client may echo the attempt id without hyphens; the store still
    // matches it against the stored hyphenated form.
    let mut store = InMemoryTwoFactorCodeStore::new();
    let email = Email::parse("user@test.com").unwrap();
    let (id, code) = store
        .new_login_attempt(&email, &TwoFactorMethod::Email)
        .unwrap();
    let simple: String = id.as_str().chars().filter(|c| *c != '-').collect();
    let reparsed = LoginAttemptId::try_from(&simple).unwrap();
    assert!(store.verify_code(&email, &reparsed, &code).unwrap());
}
