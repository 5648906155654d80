//! The token engine: compact signed tokens of three dot-separated
//! base64url segments (header, claims, signature). The engine assembles
//! and parses the segments itself and leaves only the base64 alphabet and
//! the signature primitives to outside code, behind named contracts.

use vstd::prelude::*;

use base64::Engine;

use crate::domain::Email;
use crate::text::{dec_str, esc, find_char, json_escape, parse_dec, rfind_char, str_eq, u64_to_dec};
use crate::two_factor::LoginAttemptId;

verus! {

/// Seconds a session token lives: 24 hours.
pub const SESSION_TTL_SECS: u64 = 86400;

/// Seconds a two-factor challenge token lives: 5 minutes.
pub const TWOFA_TTL_SECS: u64 = 300;

/// The greatest `now` the engine accepts; any timestamp an outside clock
/// reports fits, and a TTL added to it cannot overflow.
pub const MAX_NOW: u64 = 0x7fff_ffff_ffff_ffff;

/// The signing algorithms the engine supports.
#[derive(Debug, Clone, Copy, PartialEq, Eq, Structural)]
pub enum JwtAlgorithm {
    HS256,
    ES256,
}

/// The signing configuration: one shared secret (HMAC), or a PEM-encoded
/// ECDSA P-256 key pair, the private key signing and the public key
/// verifying.
#[derive(Debug, Clone)]
pub enum JwtKeySecret {
    Raw { value: String },
    ECDSA { pub_key_pem: String, priv_key_pem: String },
}

impl JwtKeySecret {
    /// Whether the configuration signs with ECDSA P-256.
    pub open spec fn spec_es256(&self) -> bool {
        self is ECDSA
    }

    /// The key material a verifier uses.
    pub open spec fn spec_verify_key(&self) -> Seq<char> {
        match self {
            JwtKeySecret::Raw { value } => value@,
            JwtKeySecret::ECDSA { pub_key_pem, .. } => pub_key_pem@,
        }
    }

    /// The key material a signer uses.
    pub open spec fn spec_sign_key(&self) -> Seq<char> {
        match self {
            JwtKeySecret::Raw { value } => value@,
            JwtKeySecret::ECDSA { priv_key_pem, .. } => priv_key_pem@,
        }
    }

    /// Whether `sig` is a signature of `msg` under this configuration.
    pub open spec fn spec_sig_ok(&self, sig: Seq<char>, msg: Seq<char>) -> bool {
        sig_ok(sig, msg, self.spec_es256(), self.spec_verify_key(), self.spec_sign_key())
    }

    /// Whether the configuration is coherent: under the shared secret the
    /// two roles use the same key, and an ECDSA pair must correspond for
    /// its public key to accept what its private key signs.
    pub open spec fn spec_keys_matched(&self) -> bool {
        match self {
            JwtKeySecret::Raw { .. } => true,
            JwtKeySecret::ECDSA { pub_key_pem, priv_key_pem } => keypair_ok(
                pub_key_pem@,
                priv_key_pem@,
            ),
        }
    }

    /// The algorithm the configuration selects.
    pub fn alg(&self) -> (r: JwtAlgorithm)
        ensures
            r == (if self.spec_es256() {
                JwtAlgorithm::ES256
            } else {
                JwtAlgorithm::HS256
            }),
    {
        match self {
            JwtKeySecret::Raw { .. } => JwtAlgorithm::HS256,
            JwtKeySecret::ECDSA { .. } => JwtAlgorithm::ES256,
        }
    }
}

impl Default for JwtKeySecret {
    fn default() -> (r: JwtKeySecret)
        ensures
            r matches JwtKeySecret::Raw { value } && value@ == "CHANGE_ME_TO_SOMETHING_GOOD"@,
    {
        JwtKeySecret::Raw { value: String::from_str("CHANGE_ME_TO_SOMETHING_GOOD") }
    }
}

/// Where the trust artifact lives and how it is signed.
#[derive(Debug, Clone)]
pub struct JwtConfig {
    pub cookie_name: String,
    pub secret: JwtKeySecret,
}

impl Default for JwtConfig {
    fn default() -> (r: JwtConfig)
        ensures
            r.cookie_name@ == "jwt_auth_token"@,
            r.secret matches JwtKeySecret::Raw { value } && value@
                == "really-long-super-secret-key-for-signing"@,
    {
        JwtConfig {
            cookie_name: String::from_str("jwt_auth_token"),
            secret: JwtKeySecret::Raw {
                value: String::from_str("really-long-super-secret-key-for-signing"),
            },
        }
    }
}

/// What the unpadded URL-safe base64 encoding returns on the UTF-8 bytes
/// of a text.
pub uninterp spec fn b64url_of(s: Seq<char>) -> Seq<char>;

/// What the padded URL-safe base64 encoding returns on the UTF-8 bytes of
/// a text.
pub uninterp spec fn b64url_pad_of(s: Seq<char>) -> Seq<char>;

/// What the signature check returns: whether `sig` is accepted for `msg`
/// under the given algorithm selector and key material.
pub uninterp spec fn sig_ok(
    sig: Seq<char>,
    msg: Seq<char>,
    es256: bool,
    verify_key: Seq<char>,
    sign_key: Seq<char>,
) -> bool;

/// Whether the verification key accepts what the signing key signs: true
/// of an ECDSA key pair whose public half corresponds to its private half.
pub uninterp spec fn keypair_ok(verify_key: Seq<char>, sign_key: Seq<char>) -> bool;

/// No character of `s` is a dot.
pub open spec fn no_dot(s: Seq<char>) -> bool {
    forall|i: int| 0 <= i < s.len() ==> s[i] != '.'
}

/// Relies on base64's `URL_SAFE_NO_PAD` engine: it returns unpadded
/// base64url text over the UTF-8 bytes of the input, and its alphabet
/// holds no dot.
#[verifier::external_body]
fn b64url_encode(s: &str) -> (r: String)
    ensures
        r@ == b64url_of(s@),
        no_dot(r@),
{
    base64::engine::general_purpose::URL_SAFE_NO_PAD.encode(s.as_bytes())
}

/// Relies on base64's `URL_SAFE_NO_PAD` engine with its canonical decode
/// configuration: decoding succeeds exactly on canonical encodings and
/// inverts encoding, and UTF-8 decoding restores the encoded text.
#[verifier::external_body]
fn b64url_decode(s: &str) -> (r: Option<String>)
    ensures
        r matches Some(x) ==> (s@ == b64url_of(x@) && forall|t: Seq<char>|
            s@ == b64url_of(t) ==> t == x@),
        r is None ==> forall|t: Seq<char>| s@ != b64url_of(t),
{
    match base64::engine::general_purpose::URL_SAFE_NO_PAD.decode(s) {
        Ok(bytes) => String::from_utf8(bytes).ok(),
        Err(_) => None,
    }
}

/// Relies on base64's `URL_SAFE` engine: padded base64url text over the
/// UTF-8 bytes of the input.
#[verifier::external_body]
fn b64url_pad_encode(s: &str) -> (r: String)
    ensures
        r@ == b64url_pad_of(s@),
{
    base64::engine::general_purpose::URL_SAFE.encode(s.as_bytes())
}

/// Errors of token issuance and validation.
#[derive(Debug, Clone)]
pub enum GenerateTokenError {
    Encoding,
    Decoding,
    Validation,
    UnexpectedError(String),
}

/// Relies on jsonwebtoken's `crypto::sign` (HMAC-SHA256 or ECDSA P-256 via
/// ring): signing under the shared secret never fails; the returned text
/// is unpadded base64url, so it holds no dot, and `crypto::verify` accepts
/// it for the same message under the shared secret, or under the public
/// key when the configured pair corresponds.
#[verifier::external_body]
fn jws_sign(msg: &str, secret: &JwtKeySecret) -> (r: Result<String, GenerateTokenError>)
    ensures
        !secret.spec_es256() ==> r is Ok,
        r matches Ok(sig) ==> no_dot(sig@) && (!secret.spec_es256() ==> secret.spec_sig_ok(
            sig@,
            msg@,
        )) && (keypair_ok(secret.spec_verify_key(), secret.spec_sign_key())
            ==> secret.spec_sig_ok(sig@, msg@)),
{
    let (key, alg) = match secret {
        JwtKeySecret::Raw { value } => (
            jsonwebtoken::EncodingKey::from_secret(value.as_bytes()),
            jsonwebtoken::Algorithm::HS256,
        ),
        JwtKeySecret::ECDSA { priv_key_pem, .. } => (
            match jsonwebtoken::EncodingKey::from_ec_pem(priv_key_pem.as_bytes()) {
                Ok(k) => k,
                Err(_) => return Err(GenerateTokenError::Encoding),
            },
            jsonwebtoken::Algorithm::ES256,
        ),
    };
    jsonwebtoken::crypto::sign(msg.as_bytes(), &key, alg).map_err(|_| GenerateTokenError::Encoding)
}

/// Relies on jsonwebtoken's `crypto::verify`: it deterministically decides
/// whether the signature text is accepted for the message under the
/// configured algorithm and verification key.
#[verifier::external_body]
fn jws_verify(sig: &str, msg: &str, secret: &JwtKeySecret) -> (r: bool)
    ensures
        r == sig_ok(
            sig@,
            msg@,
            secret.spec_es256(),
            secret.spec_verify_key(),
            secret.spec_sign_key(),
        ),
{
    let (key, alg) = match secret {
        JwtKeySecret::Raw { value } => (
            jsonwebtoken::DecodingKey::from_secret(value.as_bytes()),
            jsonwebtoken::Algorithm::HS256,
        ),
        JwtKeySecret::ECDSA { pub_key_pem, .. } => (
            match jsonwebtoken::DecodingKey::from_ec_pem(pub_key_pem.as_bytes()) {
                Ok(k) => k,
                Err(_) => return false,
            },
            jsonwebtoken::Algorithm::ES256,
        ),
    };
    jsonwebtoken::crypto::verify(sig, msg.as_bytes(), &key, alg).unwrap_or(false)
}

/// The JSON header naming the signing algorithm.
pub open spec fn header_json(es256: bool) -> Seq<char> {
    if es256 {
        "{\"typ\":\"jwt\",\"alg\":\"ES256\"}"@
    } else {
        "{\"typ\":\"jwt\",\"alg\":\"HS256\"}"@
    }
}

/// Renders the header for the selected algorithm.
pub fn render_header(es256: bool) -> (r: &'static str)
    ensures
        r@ == header_json(es256),
{
    if es256 {
        "{\"typ\":\"jwt\",\"alg\":\"ES256\"}"
    } else {
        "{\"typ\":\"jwt\",\"alg\":\"HS256\"}"
    }
}

/// The claims body of a session token: subject and expiry.
pub open spec fn claims_json(sub: Seq<char>, exp: u64) -> Seq<char> {
    "{\"sub\":\""@ + esc(sub) + "\",\"exp\":"@ + dec_str(exp as nat) + "}"@
}

/// Renders the session claims body.
pub fn render_claims(sub: &str, exp: u64) -> (r: String)
    ensures
        r@ == claims_json(sub@, exp),
{
    let mut out = String::from_str("{\"sub\":\"");
    let escaped = json_escape(sub);
    out.append(escaped.as_str());
    out.append("\",\"exp\":");
    let num = u64_to_dec(exp);
    out.append(num.as_str());
    out.append("}");
    proof {
        assert(out@ =~= claims_json(sub@, exp));
    }
    out
}

/// The claims body of a two-factor challenge token: attempt id as subject,
/// expiry, and the account email.
pub open spec fn twofa_claims_json(sub: Seq<char>, exp: u64, email: Seq<char>) -> Seq<char> {
    "{\"sub\":\""@ + esc(sub) + "\",\"exp\":"@ + dec_str(exp as nat) + ",\"email\":\""@ + esc(
        email,
    ) + "\"}"@
}

/// Renders the challenge claims body.
pub fn render_twofa_claims(sub: &str, exp: u64, email: &str) -> (r: String)
    ensures
        r@ == twofa_claims_json(sub@, exp, email@),
{
    let mut out = String::from_str("{\"sub\":\"");
    let escaped_sub = json_escape(sub);
    out.append(escaped_sub.as_str());
    out.append("\",\"exp\":");
    let num = u64_to_dec(exp);
    out.append(num.as_str());
    out.append(",\"email\":\"");
    let escaped_email = json_escape(email);
    out.append(escaped_email.as_str());
    out.append("\"}");
    proof {
        assert(out@ =~= twofa_claims_json(sub@, exp, email@));
    }
    out
}

/// The signed part of a token: encoded header, dot, encoded claims.
pub open spec fn jws_msg(es256: bool, claims: Seq<char>) -> Seq<char> {
    b64url_of(header_json(es256)) + seq!['.'] + b64url_of(claims)
}

/// Whether `t` is a well-signed compact token carrying `claims` under
/// `secret`.
pub open spec fn token_with_claims(secret: JwtKeySecret, t: Seq<char>, claims: Seq<char>) -> bool {
    exists|sig: Seq<char>|
        {
            &&& t == jws_msg(secret.spec_es256(), claims) + seq!['.'] + sig
            &&& #[trigger] secret.spec_sig_ok(sig, jws_msg(secret.spec_es256(), claims))
            &&& no_dot(sig)
        }
}

/// Whether `t` is a session token for subject `sub` expiring at `exp`.
pub open spec fn session_token_for(
    secret: JwtKeySecret,
    t: Seq<char>,
    sub: Seq<char>,
    exp: u64,
) -> bool {
    token_with_claims(secret, t, claims_json(sub, exp))
}

/// Whether `t` is a challenge token for attempt `sub` and `email`,
/// expiring at `exp`.
pub open spec fn twofa_token_for(
    secret: JwtKeySecret,
    t: Seq<char>,
    sub: Seq<char>,
    exp: u64,
    email: Seq<char>,
) -> bool {
    token_with_claims(secret, t, twofa_claims_json(sub, exp, email))
}

/// Signs `claims` into a compact token.
fn issue_token(claims: &str, secret: &JwtKeySecret) -> (r: Result<String, GenerateTokenError>)
    ensures
        !secret.spec_es256() ==> r is Ok,
        r matches Ok(t) ==> (secret.spec_keys_matched() ==> token_with_claims(*secret, t@, claims@)),
{
    let es = match secret {
        JwtKeySecret::Raw { .. } => false,
        JwtKeySecret::ECDSA { .. } => true,
    };
    let mut msg = b64url_encode(render_header(es));
    msg.append(".");
    let encoded_claims = b64url_encode(claims);
    msg.append(encoded_claims.as_str());
    proof {
        reveal_strlit(".");
        assert(msg@ =~= jws_msg(secret.spec_es256(), claims@));
    }
    let sig = match jws_sign(msg.as_str(), secret) {
        Ok(sig) => sig,
        Err(e) => {
            return Err(e);
        },
    };
    let mut token = msg;
    token.append(".");
    token.append(sig.as_str());
    proof {
        assert(token@ =~= jws_msg(secret.spec_es256(), claims@) + seq!['.'] + sig@);
    }
    Ok(token)
}

/// Issues a session token for `email` expiring at `now + SESSION_TTL_SECS`.
pub fn generate_auth_token_at(email: &Email, secret: &JwtKeySecret, now: u64) -> (r: Result<
    String,
    GenerateTokenError,
>)
    requires
        now <= MAX_NOW,
    ensures
        !secret.spec_es256() ==> r is Ok,
        r matches Ok(t) ==> (secret.spec_keys_matched() ==> session_token_for(
            *secret,
            t@,
            email@,
            (now + SESSION_TTL_SECS) as u64,
        )),
{
    let exp = now + SESSION_TTL_SECS;
    let claims = render_claims(email.as_str(), exp);
    issue_token(claims.as_str(), secret)
}

/// Relies on chrono's `Utc::now`: the clock reading is a signed 64-bit
/// count of seconds, mapped to zero when it lies before the epoch.
#[verifier::external_body]
pub fn now_unix() -> (r: u64)
    ensures
        r <= MAX_NOW,
{
    u64::try_from(chrono::Utc::now().timestamp()).unwrap_or(0)
}

/// Issues a session token for `email` expiring a day from now.
pub fn generate_auth_token(email: &Email, secret: &JwtKeySecret) -> (r: Result<
    String,
    GenerateTokenError,
>)
    ensures
        !secret.spec_es256() ==> r is Ok,
        r matches Ok(t) ==> (secret.spec_keys_matched() ==> exists|exp: u64|
            #[trigger] session_token_for(*secret, t@, email@, exp)),
{
    let now = now_unix();
    generate_auth_token_at(email, secret, now)
}

/// Issues a challenge token for `(id, email)` expiring at
/// `now + TWOFA_TTL_SECS`, wrapped in padded base64url for safe embedding
/// in a delivery link.
pub fn generate_2fa_token_at(id: &LoginAttemptId, email: &Email, secret: &JwtKeySecret, now: u64) -> (r:
    Result<String, GenerateTokenError>)
    requires
        now <= MAX_NOW,
    ensures
        !secret.spec_es256() ==> r is Ok,
        r matches Ok(w) ==> (secret.spec_keys_matched() ==> exists|t: Seq<char>|
            #[trigger] w@ == b64url_pad_of(t) && twofa_token_for(
                *secret,
                t,
                id@,
                (now + TWOFA_TTL_SECS) as u64,
                email@,
            )),
{
    let exp = now + TWOFA_TTL_SECS;
    let claims = render_twofa_claims(id.as_str(), exp, email.as_str());
    let token = match issue_token(claims.as_str(), secret) {
        Ok(t) => t,
        Err(e) => {
            return Err(e);
        },
    };
    Ok(b64url_pad_encode(token.as_str()))
}

/// The session claims a verified token carries.
#[derive(Debug)]
pub struct Claims {
    pub sub: String,
    pub exp: u64,
}

/// The mathematical content of session claims.
pub struct ClaimsV {
    pub sub: Seq<char>,
    pub exp: u64,
}

impl View for Claims {
    type V = ClaimsV;

    open spec fn view(&self) -> ClaimsV {
        ClaimsV { sub: self.sub@, exp: self.exp }
    }
}

/// Recovers `(sub, exp)` from a session claims body. Complete on every
/// rendering of `claims_json`; callers confirm what it found by rendering
/// it again.
fn extract_session_claims(cs: &str) -> (r: Option<(String, u64)>)
    ensures
        forall|sub: Seq<char>, e: u64|
            cs@ == claims_json(sub, e) ==> (r matches Some(p) && p.0@ == sub && p.1 == e),
{
    proof {
        reveal_strlit("{\"sub\":\"");
        reveal_strlit("\",\"exp\":");
        reveal_strlit("}");
    }
    let ghost pre = "{\"sub\":\""@;
    let ghost mid = "\",\"exp\":"@;
    let n = cs.unicode_len();
    if n < 18 {
        proof {
            assert forall|sub: Seq<char>, e: u64| cs@ != claims_json(sub, e) by {
                crate::text::lemma_dec_str_all_digits(e as nat);
            }
        }
        return None;
    }
    if cs.get_char(n - 1) != '}' {
        proof {
            assert forall|sub: Seq<char>, e: u64| cs@ != claims_json(sub, e) by {
                crate::text::lemma_dec_str_all_digits(e as nat);
                if cs@ == claims_json(sub, e) {
                    assert(cs@[n - 1] == '}');
                }
            }
        }
        return None;
    }
    // Scan the digit run that ends just before the closing brace.
    let mut j = n - 1;
    loop
        invariant
            j <= n - 1,
            n == cs@.len(),
            forall|p: int| j <= p < n - 1 ==> crate::text::is_digit_char(#[trigger] cs@[p]),
        ensures
            j <= n - 1,
            n == cs@.len(),
            forall|p: int| j <= p < n - 1 ==> crate::text::is_digit_char(#[trigger] cs@[p]),
            j == 0 || !crate::text::is_digit_char(cs@[j as int - 1]),
        decreases j,
    {
        if j == 0 {
            break;
        }
        let u = cs.get_char(j - 1) as u32;
        if u < 48 || u > 57 {
            break;
        }
        j = j - 1;
    }
    if j < 16 || j > n - 2 {
        proof {
            assert forall|sub: Seq<char>, e: u64| cs@ != claims_json(sub, e) by {
                crate::text::lemma_dec_str_all_digits(e as nat);
                if cs@ == claims_json(sub, e) {
                    lemma_extract_boundary(cs@, sub, e, j as int);
                }
            }
        }
        return None;
    }
    let m = cs.substring_char(j - 8, j);
    if !str_eq(m, "\",\"exp\":") {
        proof {
            assert forall|sub: Seq<char>, e: u64| cs@ != claims_json(sub, e) by {
                crate::text::lemma_dec_str_all_digits(e as nat);
                if cs@ == claims_json(sub, e) {
                    lemma_extract_boundary(cs@, sub, e, j as int);
                    assert(cs@.subrange(j as int - 8, j as int) =~= mid);
                }
            }
        }
        return None;
    }
    let h = cs.substring_char(0, 8);
    if !str_eq(h, "{\"sub\":\"") {
        proof {
            assert forall|sub: Seq<char>, e: u64| cs@ != claims_json(sub, e) by {
                crate::text::lemma_dec_str_all_digits(e as nat);
                if cs@ == claims_json(sub, e) {
                    assert(cs@.subrange(0, 8) =~= pre);
                }
            }
        }
        return None;
    }
    let sub_text = crate::text::json_unescape(cs, 8, j - 8);
    let exp = match parse_dec(cs, j, n - 1) {
        Some(v) => v,
        None => {
            proof {
                assert forall|sub: Seq<char>, e: u64| cs@ != claims_json(sub, e) by {
                    crate::text::lemma_dec_str_all_digits(e as nat);
                    if cs@ == claims_json(sub, e) {
                        lemma_extract_boundary(cs@, sub, e, j as int);
                        assert(cs@.subrange(j as int, n as int - 1) =~= dec_str(e as nat));
                    }
                }
            }
            return None;
        },
    };
    proof {
        assert forall|sub: Seq<char>, e: u64|
            cs@ == claims_json(sub, e) implies sub_text@ == sub && exp == e by {
            crate::text::lemma_dec_str_all_digits(e as nat);
            lemma_extract_boundary(cs@, sub, e, j as int);
            assert(cs@.subrange(8, j as int - 8) =~= esc(sub));
            crate::text::lemma_unesc_esc(sub);
            assert(cs@.subrange(j as int, n as int - 1) =~= dec_str(e as nat));
        }
    }
    Some((sub_text, exp))
}

/// In a rendered claims body, a maximal digit run ending just before the
/// closing brace starts exactly where the rendered expiry starts.
proof fn lemma_extract_boundary(t: Seq<char>, sub: Seq<char>, e: u64, j: int)
    requires
        t == claims_json(sub, e),
        0 <= j <= t.len() - 1,
        forall|p: int| j <= p < t.len() - 1 ==> crate::text::is_digit_char(#[trigger] t[p]),
        j == 0 || !crate::text::is_digit_char(t[j - 1]),
    ensures
        j == 16 + esc(sub).len(),
{
    reveal_strlit("{\"sub\":\"");
    reveal_strlit("\",\"exp\":");
    reveal_strlit("}");
    let k = esc(sub).len() as int;
    let m = dec_str(e as nat).len() as int;
    crate::text::lemma_dec_str_all_digits(e as nat);
    assert(t.len() == 17 + k + m);
    // The digit run of the rendering occupies [16 + k, 16 + k + m), and the
    // character before it is the colon closing the key.
    assert(t[15 + k] == ':');
    assert(!crate::text::is_digit_char(':'));
    if j > 16 + k {
        assert(crate::text::is_digit_char(t[j - 1]));
        assert(16 + k <= j - 1 < t.len() - 1);
        assert(false);
    }
    if j < 16 + k {
        assert(crate::text::is_digit_char(t[15 + k]));
        assert(false);
    }
}

/// Two renderings agree only on equal claims.
pub proof fn lemma_claims_json_injective(s1: Seq<char>, e1: u64, s2: Seq<char>, e2: u64)
    requires
        claims_json(s1, e1) == claims_json(s2, e2),
    ensures
        s1 == s2,
        e1 == e2,
{
    reveal_strlit("{\"sub\":\"");
    reveal_strlit("\",\"exp\":");
    reveal_strlit("}");
    let t = claims_json(s1, e1);
    let k1 = esc(s1).len() as int;
    let m1 = dec_str(e1 as nat).len() as int;
    let k2 = esc(s2).len() as int;
    let m2 = dec_str(e2 as nat).len() as int;
    crate::text::lemma_dec_str_all_digits(e1 as nat);
    crate::text::lemma_dec_str_all_digits(e2 as nat);
    assert(t.len() == 17 + k1 + m1);
    assert(t.len() == 17 + k2 + m2);
    assert(!crate::text::is_digit_char(':'));
    if k1 < k2 {
        // Under the second reading, position 15 + k2 is the colon; under
        // the first it falls inside the digit run.
        assert(t[15 + k2] == ':');
        assert(16 + k1 <= 15 + k2 < 16 + k1 + m1);
        assert(crate::text::is_digit_char(t[15 + k2]));
        assert(false);
    }
    if k2 < k1 {
        assert(t[15 + k1] == ':');
        assert(16 + k2 <= 15 + k1 < 16 + k2 + m2);
        assert(crate::text::is_digit_char(t[15 + k1]));
        assert(false);
    }
    assert(esc(s1) =~= t.subrange(8, 8 + k1));
    assert(esc(s2) =~= t.subrange(8, 8 + k1));
    crate::text::lemma_unesc_esc(s1);
    crate::text::lemma_unesc_esc(s2);
    assert(s1 == s2);
    assert(dec_str(e1 as nat) =~= t.subrange(16 + k1, 16 + k1 + m1));
    assert(dec_str(e2 as nat) =~= t.subrange(16 + k1, 16 + k1 + m1));
    crate::text::lemma_dec_str_injective(e1 as nat, e2 as nat);
}

/// Checks a presented session token: correct algorithm header, valid
/// signature over the first two segments, well-formed claims, and an
/// expiry after `now`. Returns the carried claims, which are the only ones
/// any well-signed reading of the token can carry.
pub fn validate_token_at(token: &str, secret: &JwtKeySecret, now: u64) -> (r: Result<
    Claims,
    GenerateTokenError,
>)
    ensures
        r matches Ok(c) ==> session_token_for(*secret, token@, c@.sub, c@.exp) && c@.exp > now,
        r matches Ok(c) ==> forall|sub: Seq<char>, exp: u64|
            session_token_for(*secret, token@, sub, exp) ==> sub == c@.sub && exp == c@.exp,
        forall|sub: Seq<char>, exp: u64|
            #[trigger] session_token_for(*secret, token@, sub, exp) && exp > now ==> r is Ok,
{
    let es = match secret {
        JwtKeySecret::Raw { .. } => false,
        JwtKeySecret::ECDSA { .. } => true,
    };
    let hb = b64url_encode(render_header(es));
    let n = token.unicode_len();
    let d1 = match find_char(token, 0, '.') {
        Some(d) => d,
        None => {
            proof {
                assert forall|sub: Seq<char>, exp: u64|
                    !session_token_for(*secret, token@, sub, exp) by {
                    lemma_no_dot_no_token(token@, *secret, claims_json(sub, exp));
                }
            }
            return Err(GenerateTokenError::Decoding);
        },
    };
    let d2 = match rfind_char(token, 0, n, '.') {
        Some(d) => d,
        None => {
            proof {
                assert forall|sub: Seq<char>, exp: u64|
                    !session_token_for(*secret, token@, sub, exp) by {
                    lemma_no_dot_no_token(token@, *secret, claims_json(sub, exp));
                }
            }
            return Err(GenerateTokenError::Decoding);
        },
    };
    if d1 == d2 {
        proof {
            assert forall|sub: Seq<char>, exp: u64|
                !session_token_for(*secret, token@, sub, exp) by {
                if session_token_for(*secret, token@, sub, exp) {
                    lemma_token_dots(token@, *secret, claims_json(sub, exp), hb@, d1 as int, d2 as int);
                }
            }
        }
        return Err(GenerateTokenError::Decoding);
    }
    let h = token.substring_char(0, d1);
    if !str_eq(h, hb.as_str()) {
        proof {
            assert forall|sub: Seq<char>, exp: u64|
                !session_token_for(*secret, token@, sub, exp) by {
                if session_token_for(*secret, token@, sub, exp) {
                    lemma_token_dots(token@, *secret, claims_json(sub, exp), hb@, d1 as int, d2 as int);
                }
            }
        }
        return Err(GenerateTokenError::Decoding);
    }
    let cpart = token.substring_char(d1 + 1, d2);
    let cs = match b64url_decode(cpart) {
        Some(cs) => cs,
        None => {
            proof {
                assert forall|sub: Seq<char>, exp: u64|
                    !session_token_for(*secret, token@, sub, exp) by {
                    if session_token_for(*secret, token@, sub, exp) {
                        lemma_token_dots(token@, *secret, claims_json(sub, exp), hb@, d1 as int, d2 as int);
                    }
                }
            }
            return Err(GenerateTokenError::Decoding);
        },
    };
    let extracted = match extract_session_claims(cs.as_str()) {
        Some(p) => p,
        None => {
            proof {
                assert forall|sub: Seq<char>, exp: u64|
                    !session_token_for(*secret, token@, sub, exp) by {
                    if session_token_for(*secret, token@, sub, exp) {
                        lemma_token_dots(token@, *secret, claims_json(sub, exp), hb@, d1 as int, d2 as int);
                    }
                }
            }
            return Err(GenerateTokenError::Decoding);
        },
    };
    let (sub_text, exp) = extracted;
    let rendered = render_claims(sub_text.as_str(), exp);
    if !str_eq(cs.as_str(), rendered.as_str()) {
        proof {
            assert forall|sub: Seq<char>, exp2: u64|
                !session_token_for(*secret, token@, sub, exp2) by {
                if session_token_for(*secret, token@, sub, exp2) {
                    lemma_token_dots(token@, *secret, claims_json(sub, exp2), hb@, d1 as int, d2 as int);
                }
            }
        }
        return Err(GenerateTokenError::Decoding);
    }
    // From here on the claims body is known to be a rendering.
    let msg = token.substring_char(0, d2);
    let sigpart = token.substring_char(d2 + 1, n);
    let sig_good = jws_verify(sigpart, msg, secret);
    proof {
        // Tie every well-signed reading of the token to the extracted pair.
        assert forall|sub: Seq<char>, exp2: u64|
            session_token_for(*secret, token@, sub, exp2) implies sub == sub_text@ && exp2 == exp
            && sig_good by {
            lemma_token_dots(token@, *secret, claims_json(sub, exp2), hb@, d1 as int, d2 as int);
            lemma_claims_json_injective(sub, exp2, sub_text@, exp);
        }
    }
    if !sig_good {
        return Err(GenerateTokenError::Validation);
    }
    if exp <= now {
        return Err(GenerateTokenError::Validation);
    }
    proof {
        let cj = claims_json(sub_text@, exp);
        let msgv = jws_msg(secret.spec_es256(), cj);
        let sigv = token@.subrange(d2 as int + 1, n as int);
        assert(es == secret.spec_es256());
        assert(cs@ == cj);
        assert(d1 < d2) by {
            assert(token@[d1 as int] == '.');
        }
        assert(token@.subrange(0, d1 as int) == hb@);
        assert(token@.subrange(d1 as int + 1, d2 as int) == b64url_of(cs@));
        assert(msg@ =~= msgv) by {
            assert(msg@ == token@.subrange(0, d2 as int));
            assert forall|p: int| 0 <= p < d2 implies token@[p] == msgv[p] by {
                if p < d1 {
                    assert(token@[p] == token@.subrange(0, d1 as int)[p]);
                } else if p > d1 {
                    assert(token@[p] == token@.subrange(d1 as int + 1, d2 as int)[p - d1 - 1]);
                }
            }
            assert(d2 == d1 + 1 + b64url_of(cs@).len());
        }
        assert(secret.spec_sig_ok(sigv, msgv)) by {
            assert(sigpart@ == sigv);
        }
        assert(no_dot(sigv)) by {
            assert forall|p: int| 0 <= p < sigv.len() implies sigv[p] != '.' by {
                assert(sigv[p] == token@[d2 + 1 + p]);
            }
        }
        assert(token@ =~= msgv + seq!['.'] + sigv);
        assert(session_token_for(*secret, token@, sub_text@, exp));
    }
    Ok(Claims { sub: sub_text, exp })
}

/// A text without a dot is no well-signed token, whatever claims are read
/// into it.
proof fn lemma_no_dot_no_token(t: Seq<char>, secret: JwtKeySecret, claims: Seq<char>)
    requires
        forall|j: int| 0 <= j < t.len() ==> t[j] != '.',
    ensures
        !token_with_claims(secret, t, claims),
{
    if token_with_claims(secret, t, claims) {
        let sig = choose|sig: Seq<char>|
            {
                &&& t == jws_msg(secret.spec_es256(), claims) + seq!['.'] + sig
                &&& #[trigger] secret.spec_sig_ok(sig, jws_msg(secret.spec_es256(), claims))
                &&& no_dot(sig)
            };
        assert(t[b64url_of(header_json(secret.spec_es256())).len() as int] == '.');
    }
}

/// In a well-signed token whose header matches `hb`, the first dot closes
/// the header segment and the last dot closes the claims segment.
proof fn lemma_token_dots(
    t: Seq<char>,
    secret: JwtKeySecret,
    claims: Seq<char>,
    hb: Seq<char>,
    d1: int,
    d2: int,
)
    requires
        token_with_claims(secret, t, claims),
        hb == b64url_of(header_json(secret.spec_es256())),
        no_dot(hb),
        0 <= d1 < t.len(),
        t[d1] == '.',
        forall|j: int| 0 <= j < d1 ==> t[j] != '.',
        0 <= d2 < t.len(),
        t[d2] == '.',
        forall|j: int| d2 < j < t.len() ==> t[j] != '.',
    ensures
        d1 == hb.len(),
        d2 == hb.len() + 1 + b64url_of(claims).len(),
        d1 < d2,
        t.subrange(0, d1) == hb,
        t.subrange(d1 + 1, d2) == b64url_of(claims),
        t.subrange(0, d2) == jws_msg(secret.spec_es256(), claims),
        secret.spec_sig_ok(t.subrange(d2 + 1, t.len() as int), t.subrange(0, d2)),
{
    let sig = choose|sig: Seq<char>|
        {
            &&& t == jws_msg(secret.spec_es256(), claims) + seq!['.'] + sig
            &&& #[trigger] secret.spec_sig_ok(sig, jws_msg(secret.spec_es256(), claims))
            &&& no_dot(sig)
        };
    let c = b64url_of(claims);
    let hl = hb.len() as int;
    let cl = c.len() as int;
    assert(t.len() == hl + 1 + cl + 1 + sig.len());
    assert(t[hl] == '.');
    assert(t[hl + 1 + cl] == '.');
    assert(d1 == hl) by {
        if d1 < hl {
            assert(t[d1] == hb[d1]);
        }
        if d1 > hl {
            assert(t[hl] != '.');
        }
    }
    assert(d2 == hl + 1 + cl) by {
        if d2 < hl + 1 + cl {
            assert(t[hl + 1 + cl] != '.');
        }
        if d2 > hl + 1 + cl {
            assert(t[d2] == sig[d2 - (hl + 1 + cl) - 1]);
        }
    }
    assert(t.subrange(0, d1) =~= hb);
    assert(t.subrange(d1 + 1, d2) =~= c);
    assert(t.subrange(0, d2) =~= jws_msg(secret.spec_es256(), claims));
    assert(t.subrange(d2 + 1, t.len() as int) =~= sig);
}

/// The challenge claims a verified token carries: the attempt id text as
/// subject, the expiry, and the account email text.
#[derive(Debug)]
pub struct TwoFAClaims {
    pub sub: String,
    pub exp: u64,
    pub email: String,
}

/// The mathematical content of challenge claims.
pub struct TwoFAClaimsV {
    pub sub: Seq<char>,
    pub exp: u64,
    pub email: Seq<char>,
}

impl View for TwoFAClaims {
    type V = TwoFAClaimsV;

    open spec fn view(&self) -> TwoFAClaimsV {
        TwoFAClaimsV { sub: self.sub@, exp: self.exp, email: self.email@ }
    }
}

/// Recovers `(sub, exp, email)` from a challenge claims body. Complete on
/// every rendering of `twofa_claims_json`; callers confirm what it found
/// by rendering it again.
fn extract_twofa_claims(cs: &str) -> (r: Option<(String, u64, String)>)
    ensures
        forall|sub: Seq<char>, e: u64, em: Seq<char>|
            cs@ == twofa_claims_json(sub, e, em) ==> (r matches Some(p) && p.0@ == sub && p.1 == e
                && p.2@ == em),
{
    proof {
        reveal_strlit("{\"sub\":\"");
        reveal_strlit("\",\"exp\":");
        reveal_strlit(",\"email\":\"");
        reveal_strlit("\"}");
    }
    let n = cs.unicode_len();
    if n < 29 {
        proof {
            assert forall|sub: Seq<char>, e: u64, em: Seq<char>|
                cs@ != twofa_claims_json(sub, e, em) by {
                crate::text::lemma_dec_str_all_digits(e as nat);
            }
        }
        return None;
    }
    let h = cs.substring_char(0, 8);
    if !str_eq(h, "{\"sub\":\"") {
        proof {
            assert forall|sub: Seq<char>, e: u64, em: Seq<char>|
                cs@ != twofa_claims_json(sub, e, em) by {
                if cs@ == twofa_claims_json(sub, e, em) {
                    assert(cs@.subrange(0, 8) =~= "{\"sub\":\""@);
                }
            }
        }
        return None;
    }
    let j = match crate::text::find_unescaped_quote(cs, 8) {
        Some(j) => j,
        None => {
            proof {
                assert forall|sub: Seq<char>, e: u64, em: Seq<char>|
                    cs@ != twofa_claims_json(sub, e, em) by {
                    if cs@ == twofa_claims_json(sub, e, em) {
                        lemma_twofa_quote(cs@, sub, e, em);
                    }
                }
            }
            return None;
        },
    };
    // The digit run of the expiry starts after the eight key characters.
    if n - j < 9 {
        proof {
            assert forall|sub: Seq<char>, e: u64, em: Seq<char>|
                cs@ != twofa_claims_json(sub, e, em) by {
                if cs@ == twofa_claims_json(sub, e, em) {
                    lemma_twofa_quote(cs@, sub, e, em);
                    crate::text::lemma_dec_str_all_digits(e as nat);
                }
            }
        }
        return None;
    }
    let m = cs.substring_char(j, j + 8);
    if !str_eq(m, "\",\"exp\":") {
        proof {
            assert forall|sub: Seq<char>, e: u64, em: Seq<char>|
                cs@ != twofa_claims_json(sub, e, em) by {
                if cs@ == twofa_claims_json(sub, e, em) {
                    lemma_twofa_quote(cs@, sub, e, em);
                    assert(cs@.subrange(j as int, j as int + 8) =~= "\",\"exp\":"@);
                }
            }
        }
        return None;
    }
    let mut d_end = j + 8;
    loop
        invariant
            j + 8 <= d_end <= n,
            n == cs@.len(),
            forall|p: int| j + 8 <= p < d_end ==> crate::text::is_digit_char(#[trigger] cs@[p]),
        ensures
            j + 8 <= d_end <= n,
            n == cs@.len(),
            forall|p: int| j + 8 <= p < d_end ==> crate::text::is_digit_char(#[trigger] cs@[p]),
            d_end == n || !crate::text::is_digit_char(cs@[d_end as int]),
        decreases n - d_end,
    {
        if d_end >= n {
            break;
        }
        let u = cs.get_char(d_end) as u32;
        if u < 48 || u > 57 {
            break;
        }
        d_end = d_end + 1;
    }
    if d_end == j + 8 || n - d_end < 12 {
        proof {
            assert forall|sub: Seq<char>, e: u64, em: Seq<char>|
                cs@ != twofa_claims_json(sub, e, em) by {
                if cs@ == twofa_claims_json(sub, e, em) {
                    lemma_twofa_quote(cs@, sub, e, em);
                    lemma_twofa_digits(cs@, sub, e, em, d_end as int);
                }
            }
        }
        return None;
    }
    let em_mark = cs.substring_char(d_end, d_end + 10);
    if !str_eq(em_mark, ",\"email\":\"") {
        proof {
            assert forall|sub: Seq<char>, e: u64, em: Seq<char>|
                cs@ != twofa_claims_json(sub, e, em) by {
                if cs@ == twofa_claims_json(sub, e, em) {
                    lemma_twofa_quote(cs@, sub, e, em);
                    lemma_twofa_digits(cs@, sub, e, em, d_end as int);
                    assert(cs@.subrange(d_end as int, d_end as int + 10) =~= ",\"email\":\""@);
                }
            }
        }
        return None;
    }
    let tail = cs.substring_char(n - 2, n);
    if !str_eq(tail, "\"}") {
        proof {
            assert forall|sub: Seq<char>, e: u64, em: Seq<char>|
                cs@ != twofa_claims_json(sub, e, em) by {
                if cs@ == twofa_claims_json(sub, e, em) {
                    assert(cs@.subrange(n as int - 2, n as int) =~= "\"}"@);
                }
            }
        }
        return None;
    }
    let sub_text = crate::text::json_unescape(cs, 8, j);
    let email_text = crate::text::json_unescape(cs, d_end + 10, n - 2);
    let exp = match parse_dec(cs, j + 8, d_end) {
        Some(v) => v,
        None => {
            proof {
                assert forall|sub: Seq<char>, e: u64, em: Seq<char>|
                    cs@ != twofa_claims_json(sub, e, em) by {
                    if cs@ == twofa_claims_json(sub, e, em) {
                        lemma_twofa_quote(cs@, sub, e, em);
                        lemma_twofa_digits(cs@, sub, e, em, d_end as int);
                        assert(cs@.subrange(j as int + 8, d_end as int) =~= dec_str(e as nat));
                    }
                }
            }
            return None;
        },
    };
    proof {
        assert forall|sub: Seq<char>, e: u64, em: Seq<char>|
            cs@ == twofa_claims_json(sub, e, em) implies sub_text@ == sub && exp == e
            && email_text@ == em by {
            lemma_twofa_quote(cs@, sub, e, em);
            lemma_twofa_digits(cs@, sub, e, em, d_end as int);
            assert(cs@.subrange(8, j as int) =~= esc(sub));
            assert(cs@.subrange(d_end as int + 10, n as int - 2) =~= esc(em));
            crate::text::lemma_unesc_esc(sub);
            crate::text::lemma_unesc_esc(em);
            assert(cs@.subrange(j as int + 8, d_end as int) =~= dec_str(e as nat));
        }
    }
    Some((sub_text, exp, email_text))
}

/// In a rendered challenge body, the first unescaped quote after the key
/// prefix closes the subject string.
proof fn lemma_twofa_quote(t: Seq<char>, sub: Seq<char>, e: u64, em: Seq<char>)
    requires
        t == twofa_claims_json(sub, e, em),
    ensures
        crate::text::quote_scan(t, 8) == Some(8 + esc(sub).len() as int),
        t.len() == 28 + esc(sub).len() + dec_str(e as nat).len() + esc(em).len(),
{
    reveal_strlit("{\"sub\":\"");
    reveal_strlit("\",\"exp\":");
    reveal_strlit(",\"email\":\"");
    reveal_strlit("\"}");
    let k = esc(sub).len() as int;
    assert(t.subrange(8, 8 + k) =~= esc(sub));
    assert(t[8 + k] == '"');
    crate::text::lemma_quote_scan_esc(t, 8, sub);
}

/// In a rendered challenge body, a maximal digit run starting after the
/// expiry key ends exactly where the rendered expiry ends.
proof fn lemma_twofa_digits(t: Seq<char>, sub: Seq<char>, e: u64, em: Seq<char>, d_end: int)
    requires
        t == twofa_claims_json(sub, e, em),
        16 + esc(sub).len() <= d_end <= t.len(),
        forall|p: int|
            16 + esc(sub).len() <= p < d_end ==> crate::text::is_digit_char(#[trigger] t[p]),
        d_end == t.len() || !crate::text::is_digit_char(t[d_end]),
    ensures
        d_end == 16 + esc(sub).len() + dec_str(e as nat).len(),
{
    reveal_strlit("{\"sub\":\"");
    reveal_strlit("\",\"exp\":");
    reveal_strlit(",\"email\":\"");
    reveal_strlit("\"}");
    let k = esc(sub).len() as int;
    let m = dec_str(e as nat).len() as int;
    crate::text::lemma_dec_str_all_digits(e as nat);
    assert(t.len() == 28 + k + m + esc(em).len());
    assert(t[16 + k + m] == ',');
    assert(!crate::text::is_digit_char(','));
    if d_end > 16 + k + m {
        assert(crate::text::is_digit_char(t[16 + k + m]));
        assert(false);
    }
    if d_end < 16 + k + m {
        assert(crate::text::is_digit_char(t[d_end]));
        assert(false);
    }
}

/// Two renderings of challenge claims agree only on equal claims.
pub proof fn lemma_twofa_claims_json_injective(
    s1: Seq<char>,
    e1: u64,
    m1: Seq<char>,
    s2: Seq<char>,
    e2: u64,
    m2: Seq<char>,
)
    requires
        twofa_claims_json(s1, e1, m1) == twofa_claims_json(s2, e2, m2),
    ensures
        s1 == s2,
        e1 == e2,
        m1 == m2,
{
    reveal_strlit("{\"sub\":\"");
    reveal_strlit("\",\"exp\":");
    reveal_strlit(",\"email\":\"");
    reveal_strlit("\"}");
    let t = twofa_claims_json(s1, e1, m1);
    lemma_twofa_quote(t, s1, e1, m1);
    lemma_twofa_quote(t, s2, e2, m2);
    let k = esc(s1).len() as int;
    assert(esc(s2).len() == k);
    assert(esc(s1) =~= t.subrange(8, 8 + k));
    assert(esc(s2) =~= t.subrange(8, 8 + k));
    crate::text::lemma_unesc_esc(s1);
    crate::text::lemma_unesc_esc(s2);
    let d1 = dec_str(e1 as nat).len() as int;
    let d2 = dec_str(e2 as nat).len() as int;
    crate::text::lemma_dec_str_all_digits(e1 as nat);
    crate::text::lemma_dec_str_all_digits(e2 as nat);
    reveal_strlit("\",\"exp\":");
    reveal_strlit(",\"email\":\"");
    assert(!crate::text::is_digit_char(','));
    if d1 < d2 {
        assert(t[16 + k + d1] == ',');
        assert(crate::text::is_digit_char(t[16 + k + d1]));
        assert(false);
    }
    if d2 < d1 {
        assert(t[16 + k + d2] == ',');
        assert(crate::text::is_digit_char(t[16 + k + d2]));
        assert(false);
    }
    assert(dec_str(e1 as nat) =~= t.subrange(16 + k, 16 + k + d1));
    assert(dec_str(e2 as nat) =~= t.subrange(16 + k, 16 + k + d1));
    crate::text::lemma_dec_str_injective(e1 as nat, e2 as nat);
    assert(esc(m1) =~= t.subrange(26 + k + d1, t.len() - 2));
    assert(esc(m2) =~= t.subrange(26 + k + d1, t.len() - 2));
    crate::text::lemma_unesc_esc(m1);
    crate::text::lemma_unesc_esc(m2);
}

/// Checks a presented challenge token: correct algorithm header, valid
/// signature, well-formed challenge claims, and an expiry after `now`.
/// Returns the carried claims, which are the only ones any well-signed
/// reading of the token can carry.
pub fn validate_2fa_token_at(token: &str, secret: &JwtKeySecret, now: u64) -> (r: Result<
    TwoFAClaims,
    GenerateTokenError,
>)
    ensures
        r matches Ok(c) ==> twofa_token_for(*secret, token@, c@.sub, c@.exp, c@.email) && c@.exp
            > now,
        r matches Ok(c) ==> forall|sub: Seq<char>, exp: u64, em: Seq<char>|
            twofa_token_for(*secret, token@, sub, exp, em) ==> sub == c@.sub && exp == c@.exp && em
                == c@.email,
        forall|sub: Seq<char>, exp: u64, em: Seq<char>|
            #[trigger] twofa_token_for(*secret, token@, sub, exp, em) && exp > now ==> r is Ok,
{
    let es = match secret {
        JwtKeySecret::Raw { .. } => false,
        JwtKeySecret::ECDSA { .. } => true,
    };
    let hb = b64url_encode(render_header(es));
    let n = token.unicode_len();
    let d1 = match find_char(token, 0, '.') {
        Some(d) => d,
        None => {
            proof {
                assert forall|sub: Seq<char>, exp: u64, em: Seq<char>|
                    !twofa_token_for(*secret, token@, sub, exp, em) by {
                    lemma_no_dot_no_token(token@, *secret, twofa_claims_json(sub, exp, em));
                }
            }
            return Err(GenerateTokenError::Decoding);
        },
    };
    let d2 = match rfind_char(token, 0, n, '.') {
        Some(d) => d,
        None => {
            proof {
                assert forall|sub: Seq<char>, exp: u64, em: Seq<char>|
                    !twofa_token_for(*secret, token@, sub, exp, em) by {
                    lemma_no_dot_no_token(token@, *secret, twofa_claims_json(sub, exp, em));
                }
            }
            return Err(GenerateTokenError::Decoding);
        },
    };
    if d1 == d2 {
        proof {
            assert forall|sub: Seq<char>, exp: u64, em: Seq<char>|
                !twofa_token_for(*secret, token@, sub, exp, em) by {
                if twofa_token_for(*secret, token@, sub, exp, em) {
                    lemma_token_dots(
                        token@,
                        *secret,
                        twofa_claims_json(sub, exp, em),
                        hb@,
                        d1 as int,
                        d2 as int,
                    );
                }
            }
        }
        return Err(GenerateTokenError::Decoding);
    }
    let h = token.substring_char(0, d1);
    if !str_eq(h, hb.as_str()) {
        proof {
            assert forall|sub: Seq<char>, exp: u64, em: Seq<char>|
                !twofa_token_for(*secret, token@, sub, exp, em) by {
                if twofa_token_for(*secret, token@, sub, exp, em) {
                    lemma_token_dots(
                        token@,
                        *secret,
                        twofa_claims_json(sub, exp, em),
                        hb@,
                        d1 as int,
                        d2 as int,
                    );
                }
            }
        }
        return Err(GenerateTokenError::Decoding);
    }
    let cpart = token.substring_char(d1 + 1, d2);
    let cs = match b64url_decode(cpart) {
        Some(cs) => cs,
        None => {
            proof {
                assert forall|sub: Seq<char>, exp: u64, em: Seq<char>|
                    !twofa_token_for(*secret, token@, sub, exp, em) by {
                    if twofa_token_for(*secret, token@, sub, exp, em) {
                        lemma_token_dots(
                            token@,
                            *secret,
                            twofa_claims_json(sub, exp, em),
                            hb@,
                            d1 as int,
                            d2 as int,
                        );
                    }
                }
            }
            return Err(GenerateTokenError::Decoding);
        },
    };
    let extracted = match extract_twofa_claims(cs.as_str()) {
        Some(p) => p,
        None => {
            proof {
                assert forall|sub: Seq<char>, exp: u64, em: Seq<char>|
                    !twofa_token_for(*secret, token@, sub, exp, em) by {
                    if twofa_token_for(*secret, token@, sub, exp, em) {
                        lemma_token_dots(
                            token@,
                            *secret,
                            twofa_claims_json(sub, exp, em),
                            hb@,
                            d1 as int,
                            d2 as int,
                        );
                    }
                }
            }
            return Err(GenerateTokenError::Decoding);
        },
    };
    let (sub_text, exp, email_text) = extracted;
    let rendered = render_twofa_claims(sub_text.as_str(), exp, email_text.as_str());
    if !str_eq(cs.as_str(), rendered.as_str()) {
        proof {
            assert forall|sub: Seq<char>, exp2: u64, em: Seq<char>|
                !twofa_token_for(*secret, token@, sub, exp2, em) by {
                if twofa_token_for(*secret, token@, sub, exp2, em) {
                    lemma_token_dots(
                        token@,
                        *secret,
                        twofa_claims_json(sub, exp2, em),
                        hb@,
                        d1 as int,
                        d2 as int,
                    );
                }
            }
        }
        return Err(GenerateTokenError::Decoding);
    }
    let msg = token.substring_char(0, d2);
    let sigpart = token.substring_char(d2 + 1, n);
    let sig_good = jws_verify(sigpart, msg, secret);
    proof {
        assert forall|sub: Seq<char>, exp2: u64, em: Seq<char>|
            twofa_token_for(*secret, token@, sub, exp2, em) implies sub == sub_text@ && exp2 == exp
            && em == email_text@ && sig_good by {
            lemma_token_dots(
                token@,
                *secret,
                twofa_claims_json(sub, exp2, em),
                hb@,
                d1 as int,
                d2 as int,
            );
            lemma_twofa_claims_json_injective(sub, exp2, em, sub_text@, exp, email_text@);
        }
    }
    if !sig_good {
        return Err(GenerateTokenError::Validation);
    }
    if exp <= now {
        return Err(GenerateTokenError::Validation);
    }
    proof {
        let cj = twofa_claims_json(sub_text@, exp, email_text@);
        let msgv = jws_msg(secret.spec_es256(), cj);
        let sigv = token@.subrange(d2 as int + 1, n as int);
        assert(es == secret.spec_es256());
        assert(cs@ == cj);
        assert(token@.subrange(d1 as int + 1, d2 as int) == b64url_of(cs@));
        assert(msg@ =~= msgv) by {
            assert(msg@ == token@.subrange(0, d2 as int));
            assert forall|p: int| 0 <= p < d2 implies token@[p] == msgv[p] by {
                if p < d1 {
                    assert(token@[p] == token@.subrange(0, d1 as int)[p]);
                } else if p > d1 {
                    assert(token@[p] == token@.subrange(d1 as int + 1, d2 as int)[p - d1 - 1]);
                }
            }
            assert(d2 == d1 + 1 + b64url_of(cs@).len());
        }
        assert(secret.spec_sig_ok(sigv, msgv)) by {
            assert(sigpart@ == sigv);
        }
        assert(no_dot(sigv)) by {
            assert forall|p: int| 0 <= p < sigv.len() implies sigv[p] != '.' by {
                assert(sigv[p] == token@[d2 + 1 + p]);
            }
        }
        assert(token@ =~= msgv + seq!['.'] + sigv);
        assert(twofa_token_for(*secret, token@, sub_text@, exp, email_text@));
    }
    Ok(TwoFAClaims { sub: sub_text, exp, email: email_text })
}

/// Checks a presented challenge token against the clock now.
pub fn validate_2fa_token(token: &str, config: &JwtConfig) -> (r: Result<
    TwoFAClaims,
    GenerateTokenError,
>)
    ensures
        r matches Ok(c) ==> twofa_token_for(config.secret, token@, c@.sub, c@.exp, c@.email),
        r matches Ok(c) ==> forall|sub: Seq<char>, exp: u64, em: Seq<char>|
            twofa_token_for(config.secret, token@, sub, exp, em) ==> sub == c@.sub && exp == c@.exp
                && em == c@.email,
{
    let now = now_unix();
    validate_2fa_token_at(token, &config.secret, now)
}

/// Checks a presented session token against the clock now.
pub fn validate_token(token: &str, config: &JwtConfig) -> (r: Result<Claims, GenerateTokenError>)
    ensures
        r matches Ok(c) ==> session_token_for(config.secret, token@, c@.sub, c@.exp),
        r matches Ok(c) ==> forall|sub: Seq<char>, exp: u64|
            session_token_for(config.secret, token@, sub, exp) ==> sub == c@.sub && exp == c@.exp,
{
    let now = now_unix();
    validate_token_at(token, &config.secret, now)
}

/// Round trip, first half: a token issued for a subject and an expiry
/// still ahead of the clock is accepted by `validate_token_at`, whose
/// completeness clause keys on exactly this statement. Its uniqueness
/// clause adds that the claims it returns are the ones the token was
/// issued for.
pub proof fn lemma_issued_token_verifies(
    secret: JwtKeySecret,
    t: Seq<char>,
    sub: Seq<char>,
    exp: u64,
    now: u64,
)
    requires
        session_token_for(secret, t, sub, exp),
        exp > now,
    ensures
        exists|s: Seq<char>, e: u64| #[trigger] session_token_for(secret, t, s, e) && e > now,
{
    assert(session_token_for(secret, t, sub, exp) && exp > now);
}

/// Round trip for challenge tokens: one issued for a triple with an expiry
/// still ahead of the clock is accepted by `validate_2fa_token_at`, whose
/// completeness clause keys on exactly this statement; its uniqueness
/// clause adds that the claims it returns are the issued ones.
pub proof fn lemma_issued_challenge_verifies(
    secret: JwtKeySecret,
    t: Seq<char>,
    sub: Seq<char>,
    exp: u64,
    email: Seq<char>,
    now: u64,
)
    requires
        twofa_token_for(secret, t, sub, exp, email),
        exp > now,
    ensures
        exists|s: Seq<char>, e: u64, em: Seq<char>|
            #[trigger] twofa_token_for(secret, t, s, e, em) && e > now,
{
    assert(twofa_token_for(secret, t, sub, exp, email) && exp > now);
}

/// Issues a challenge token for `(id, email)` expiring five minutes from
/// now, wrapped for link embedding.
pub fn generate_2fa_token(id: &LoginAttemptId, email: &Email, secret: &JwtKeySecret) -> (r: Result<
    String,
    GenerateTokenError,
>)
    ensures
        !secret.spec_es256() ==> r is Ok,
        r matches Ok(w) ==> (secret.spec_keys_matched() ==> exists|t: Seq<char>, exp: u64|
            #[trigger] w@ == b64url_pad_of(t) && #[trigger] twofa_token_for(
                *secret,
                t,
                id@,
                exp,
                email@,
            )),
{
    let now = now_unix();
    generate_2fa_token_at(id, email, secret, now)
}

} // verus!
