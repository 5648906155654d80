use base64::Engine;

use lgr_auth::domain::Email;
use lgr_auth::text::{json_escape, str_eq, u64_to_dec};
use lgr_auth::token::{
    generate_2fa_token_at, generate_auth_token, generate_auth_token_at, validate_token,
    validate_token_at, JwtAlgorithm, JwtConfig, JwtKeySecret, SESSION_TTL_SECS, TWOFA_TTL_SECS,
};
use lgr_auth::two_factor::LoginAttemptId;

const JWT_COOKIE_NAME: &str = "auth_token";
const JWT_SECRET: &str = "your_secret_key";

fn raw_secret() -> JwtKeySecret {
    JwtKeySecret::Raw {
        value: JWT_SECRET.to_string(),
    }
}

#[test]
fn test_auth_generate_token() {
    let email = Email::parse("test@example.com").unwrap();
    let secret = raw_secret();
    let result = generate_auth_token(&email, &secret).unwrap();
    assert_eq!(result.split('.').count(), 3);
}

#[test]
fn test_auth_validate_token_valid() {
    let config = JwtConfig {
        secret: raw_secret(),
        cookie_name: JWT_COOKIE_NAME.to_string(),
    };
    let email = Email::parse("test@example.com").unwrap();
    let token = generate_auth_token(&email, &config.secret).expect("valid token");
    let result = validate_token(&token, &config).expect("valid token");
    assert_eq!(result.sub, "test@example.com");
}

#[test]
fn test_auth_validate_token_invalid() {
    let token = "invalid_token".to_owned();
    let config = JwtConfig {
        secret: raw_secret(),
        cookie_name: JWT_COOKIE_NAME.to_string(),
    };
    let result = validate_token(&token, &config);
    assert!(result.is_err());
}

#[test]
fn test_token_round_trip_at_fixed_clock() {
    let secret = raw_secret();
    let email = Email::parse("user@x.com").unwrap();
    let now: u64 = 1_700_000_000;
    let token = generate_auth_token_at(&email, &secret, now).unwrap();

    let claims = validate_token_at(&token, &secret, now).unwrap();
    assert_eq!(claims.sub, "user@x.com");
    assert_eq!(claims.exp, now + SESSION_TTL_SECS);

    // Still valid one second before expiry, rejected at and after it.
    assert!(validate_token_at(&token, &secret, now + SESSION_TTL_SECS - 1).is_ok());
    assert!(validate_token_at(&token, &secret, now + SESSION_TTL_SECS).is_err());
    assert!(validate_token_at(&token, &secret, now + SESSION_TTL_SECS + 5).is_err());
}

#[test]
fn test_token_rejects_tampering() {
    let secret = raw_secret();
    let email = Email::parse("user@x.com").unwrap();
    let now: u64 = 1_700_000_000;
    let token = generate_auth_token_at(&email, &secret, now).unwrap();

    // Flip a character of the claims segment.
    let mut parts: Vec<&str> = token.split('.').collect();
    assert_eq!(parts.len(), 3);
    let tampered_claims = if parts[1].starts_with('A') {
        format!("B{}", &parts[1][1..])
    } else {
        format!("A{}", &parts[1][1..])
    };
    parts[1] = &tampered_claims;
    let tampered = parts.join(".");
    assert!(validate_token_at(&tampered, &secret, now).is_err());

    // A token signed under another secret is rejected too.
    let other = JwtKeySecret::Raw {
        value: "a-completely-different-secret".to_string(),
    };
    let foreign = generate_auth_token_at(&email, &other, now).unwrap();
    assert!(validate_token_at(&foreign, &secret, now).is_err());
}

#[test]
fn test_token_interoperates_with_standard_decoder() {
    let secret = raw_secret();
    let email = Email::parse("inter@op.net").unwrap();
    let now: u64 = 1_700_000_000;
    let token = generate_auth_token_at(&email, &secret, now).unwrap();

    let key = jsonwebtoken::DecodingKey::from_secret(JWT_SECRET.as_bytes());
    let mut validation = jsonwebtoken::Validation::new(jsonwebtoken::Algorithm::HS256);
    validation.validate_exp = false;
    let data = jsonwebtoken::decode::<serde_json::Value>(&token, &key, &validation)
        .expect("standard decoder accepts the token");
    assert_eq!(
        data.claims.get("sub").and_then(|v| v.as_str()),
        Some("inter@op.net")
    );
    assert_eq!(
        data.claims.get("exp").and_then(|v| v.as_u64()),
        Some(now + SESSION_TTL_SECS)
    );
}

#[test]
fn test_token_escapes_subject() {
    // A subject holding a quote and a backslash survives the round trip.
    let secret = raw_secret();
    let email = Email::parse("a\"b\\c@host.org").unwrap();
    let now: u64 = 1_000;
    let token = generate_auth_token_at(&email, &secret, now).unwrap();
    let claims = validate_token_at(&token, &secret, now).unwrap();
    assert_eq!(claims.sub, "a\"b\\c@host.org");
}

#[test]
fn test_2fa_token_wrapping() {
    let secret = raw_secret();
    let email = Email::parse("user@x.com").unwrap();
    let id = LoginAttemptId::new();
    let now: u64 = 1_700_000_000;
    let wrapped = generate_2fa_token_at(&id, &email, &secret, now).unwrap();

    // The outer layer is padded URL-safe base64 over the compact token.
    let inner = base64::engine::general_purpose::URL_SAFE
        .decode(wrapped.as_bytes())
        .expect("outer layer decodes");
    let inner = String::from_utf8(inner).expect("inner token is text");
    assert_eq!(inner.split('.').count(), 3);

    // The claims segment carries the attempt id, the email and the expiry.
    let parts: Vec<&str> = inner.split('.').collect();
    let claims = base64::engine::general_purpose::URL_SAFE_NO_PAD
        .decode(parts[1].as_bytes())
        .expect("claims decode");
    let claims = String::from_utf8(claims).unwrap();
    assert!(claims.contains(id.as_str()));
    assert!(claims.contains("user@x.com"));
    assert!(claims.contains(&(now + TWOFA_TTL_SECS).to_string()));
}

#[test]
fn test_key_secret_alg() {
    assert_eq!(raw_secret().alg(), JwtAlgorithm::HS256);
    let ec = JwtKeySecret::ECDSA {
        pub_key_pem: String::new(),
        priv_key_pem: String::new(),
    };
    assert_eq!(ec.alg(), JwtAlgorithm::ES256);
}

#[test]
fn test_jwt_config_default() {
    let config = JwtConfig::default();
    assert_eq!(config.cookie_name, "jwt_auth_token");
    match config.secret {
        JwtKeySecret::Raw { value } => {
            assert_eq!(value, "really-long-super-secret-key-for-signing")
        }
        _ => panic!("default secret is symmetric"),
    }
}

#[test]
fn test_decimal_rendering() {
    assert_eq!(u64_to_dec(0), "0");
    assert_eq!(u64_to_dec(7), "7");
    assert_eq!(u64_to_dec(12345), "12345");
    assert_eq!(u64_to_dec(u64::MAX), "18446744073709551615");
}

#[test]
fn test_json_escape() {
    assert_eq!(json_escape("plain"), "plain");
    assert_eq!(json_escape("a\"b"), "a\\\"b");
    assert_eq!(json_escape("a\\b"), "a\\\\b");
}

#[test]
fn test_str_eq() {
    assert!(str_eq("abc", "abc"));
    assert!(!str_eq("abc", "abd"));
    assert!(!str_eq("abc", "ab"));
    assert!(str_eq("", ""));
}

#[test]
fn test_2fa_token_round_trip() {
    let secret = raw_secret();
    let email = Email::parse("user@x.com").unwrap();
    let id = LoginAttemptId::new();
    let now: u64 = 1_700_000_000;
    let wrapped = generate_2fa_token_at(&id, &email, &secret, now).unwrap();
    let inner = base64::engine::general_purpose::URL_SAFE
        .decode(wrapped.as_bytes())
        .unwrap();
    let inner = String::from_utf8(inner).unwrap();

    let claims = lgr_auth::token::validate_2fa_token_at(&inner, &secret, now).unwrap();
    assert_eq!(claims.sub, id.as_str());
    assert_eq!(claims.email, "user@x.com");
    assert_eq!(claims.exp, now + TWOFA_TTL_SECS);

    // Expired at and after its five-minute lifetime.
    assert!(lgr_auth::token::validate_2fa_token_at(&inner, &secret, now + TWOFA_TTL_SECS).is_err());
    // A session validator does not accept challenge claims.
    assert!(validate_token_at(&inner, &secret, now).is_err());
}

#[test]
fn test_ecdsa_with_bad_pem_fails_cleanly() {
    // Without a valid PEM pair the asymmetric paths fail; nothing panics
    // and nothing verifies.
    let secret = JwtKeySecret::ECDSA {
        pub_key_pem: "not a pem".to_string(),
        priv_key_pem: "not a pem either".to_string(),
    };
    let email = Email::parse("user@x.com").unwrap();
    let now: u64 = 1_700_000_000;
    assert!(generate_auth_token_at(&email, &secret, now).is_err());

    // A token signed under the symmetric secret is not accepted by an
    // ECDSA configuration: the algorithm header alone differs.
    let hmac_token = generate_auth_token_at(&email, &raw_secret(), now).unwrap();
    assert!(validate_token_at(&hmac_token, &secret, now).is_err());
}
