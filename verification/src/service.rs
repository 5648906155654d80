//! The authentication state machine: login (credential check, optional
//! second-factor branch, token issuance), second-factor completion, logout
//! (revocation) and token verification (revocation check before
//! cryptographic work). It owns the three stores and the signing
//! configuration.

use vstd::prelude::*;

use crate::banned::InMemoryBannedTokenStore;
use crate::domain::{valid_email, Email, Password, TwoFactorMethod, User, UserV};
use crate::errors::AuthApiError;
use crate::signup::SignupRequest;
use crate::token::{
    generate_auth_token_at, session_token_for, validate_token_at, JwtConfig, MAX_NOW,
    SESSION_TTL_SECS,
};
use crate::two_factor::{LoginAttemptId, TwoFactorCode};
use crate::two_factor_store::{InMemoryTwoFactorCodeStore, PendingV};
use crate::user_store::{InMemoryUserStore, UserStore};

verus! {

/// A login request, by method. Only the email/password method is live;
/// the others are placeholders for flows to come.
#[derive(Debug)]
pub enum LoginRequest {
    EmailPassword { email: String, password: String },
    MagicLink { email: String },
    Passkey { email: String },
}

/// The outcome of a login: either a trust artifact, or a pending
/// second-factor challenge. The challenge carries no session token; the
/// code travels to the user over the email side channel only.
#[derive(Debug)]
pub enum LoginResponse {
    Success { email: Email, token: String },
    TwoFactor {
        email: Email,
        method: TwoFactorMethod,
        message: String,
        id: LoginAttemptId,
        code: TwoFactorCode,
    },
}

impl LoginResponse {
    pub open spec fn spec_status_code(&self) -> u16 {
        match self {
            LoginResponse::Success { .. } => 200,
            LoginResponse::TwoFactor { .. } => 206,
        }
    }

    pub fn status_code(&self) -> (r: u16)
        ensures
            r == self.spec_status_code(),
    {
        match self {
            LoginResponse::Success { .. } => 200,
            LoginResponse::TwoFactor { .. } => 206,
        }
    }
}

/// A second-factor completion request.
#[derive(Debug)]
pub struct Verify2FARequest {
    pub method: TwoFactorMethod,
    pub email: String,
    pub id: String,
    pub code: String,
}

/// A token verification request.
#[derive(Debug, Clone)]
pub struct VerifyTokenRequest {
    pub token: String,
}

/// The authentication core: the three stores and the signing
/// configuration.
#[derive(Debug)]
pub struct AuthService {
    pub jwt: JwtConfig,
    user_store: InMemoryUserStore,
    banned_tokens: InMemoryBannedTokenStore,
    two_factor: InMemoryTwoFactorCodeStore,
}

impl AuthService {
    /// The signing configuration.
    pub closed spec fn spec_jwt(&self) -> JwtConfig {
        self.jwt
    }

    /// The registered users, by email text.
    pub closed spec fn users(&self) -> Map<Seq<char>, UserV> {
        self.user_store.users()
    }

    /// The revoked tokens.
    pub closed spec fn banned(&self) -> Set<Seq<char>> {
        self.banned_tokens@
    }

    /// The pending second-factor challenges, by email text.
    pub closed spec fn pending(&self) -> Map<Seq<char>, PendingV> {
        self.two_factor@
    }

    /// The stores' internal invariants.
    pub closed spec fn wf(&self) -> bool {
        &&& self.user_store.inv()
        &&& self.banned_tokens.wf()
        &&& self.two_factor.wf()
    }

    /// Whether `email`/`password` name a registered user and the stored
    /// hash matches.
    pub open spec fn creds_ok(&self, email: Seq<char>, password: Seq<char>) -> bool {
        &&& self.users().contains_key(email)
        &&& self.users()[email].password == crate::domain::spec_hashed(password)
    }

    /// Whether a presented token passes verification: not revoked, well
    /// signed, and unexpired.
    pub open spec fn token_acceptable(&self, token: Seq<char>, now: u64) -> bool {
        &&& !self.banned().contains(token)
        &&& exists|sub: Seq<char>, exp: u64|
            #[trigger] session_token_for(self.spec_jwt().secret, token, sub, exp) && exp > now
    }

    pub fn new(config: JwtConfig) -> (r: AuthService)
        ensures
            r.wf(),
            r.users() == Map::<Seq<char>, UserV>::empty(),
            r.banned() == Set::<Seq<char>>::empty(),
            r.pending() == Map::<Seq<char>, PendingV>::empty(),
            r.spec_jwt() == config,
    {
        AuthService {
            jwt: config,
            user_store: InMemoryUserStore::new(),
            banned_tokens: InMemoryBannedTokenStore::new(),
            two_factor: InMemoryTwoFactorCodeStore::new(),
        }
    }

    /// Registers the user a signup request describes. Fails on malformed
    /// input, and on an email that is already taken, changing nothing.
    pub fn signup(&mut self, request: SignupRequest) -> (r: Result<(), crate::errors::SignupError>)
        requires
            old(self).wf(),
        ensures
            final(self).wf(),
            final(self).banned() == old(self).banned(),
            final(self).pending() == old(self).pending(),
            final(self).spec_jwt() == old(self).spec_jwt(),
            request matches SignupRequest::EmailPassword { email, password, two_factor } ==> {
                &&& password@.len() < crate::domain::MIN_PASSWORD_LEN ==> (r matches Err(
                    crate::errors::SignupError::InvalidPassword(_),
                ) && final(self).users() == old(self).users())
                &&& password@.len() >= crate::domain::MIN_PASSWORD_LEN && !valid_email(email@)
                    ==> (r matches Err(crate::errors::SignupError::InvalidEmail(_))
                    && final(self).users() == old(self).users())
                &&& password@.len() >= crate::domain::MIN_PASSWORD_LEN && valid_email(email@)
                    && old(self).users().contains_key(email@) ==> (r matches Err(
                    crate::errors::SignupError::UserStoreError(
                        crate::errors::UserStoreError::UserAlreadyExists,
                    ),
                ) && final(self).users() == old(self).users())
                &&& password@.len() >= crate::domain::MIN_PASSWORD_LEN && valid_email(email@)
                    && !old(self).users().contains_key(email@) ==> (r is Ok && final(self).users()
                    == old(self).users().insert(
                    email@,
                    UserV {
                        email: email@,
                        password: crate::domain::spec_hashed(password@),
                        two_factor: two_factor,
                    },
                ))
            },
            !(request matches SignupRequest::EmailPassword { .. }) ==> (r matches Err(
                crate::errors::SignupError::UnsupportedMethod,
            ) && final(self).users() == old(self).users()),
    {
        let user = match User::try_from(request) {
            Ok(u) => u,
            Err(e) => {
                return Err(e);
            },
        };
        match self.user_store.add_user(user) {
            Ok(()) => Ok(()),
            Err(_) => {
                Err(
                    crate::errors::SignupError::UserStoreError(
                        crate::errors::UserStoreError::UserAlreadyExists,
                    ),
                )
            },
        }
    }

    /// First-factor login at a given clock reading. On valid credentials:
    /// a user without a second factor gets a session token; a user with
    /// one gets a fresh challenge, never a token. Credential failures are
    /// reported uniformly, without revealing which check failed.
    pub fn login_at(&mut self, body: &LoginRequest, now: u64) -> (r: Result<
        LoginResponse,
        AuthApiError,
    >)
        requires
            old(self).wf(),
            now <= MAX_NOW,
        ensures
            final(self).wf(),
            final(self).users() == old(self).users(),
            final(self).banned() == old(self).banned(),
            final(self).spec_jwt() == old(self).spec_jwt(),
            !(body matches LoginRequest::EmailPassword { .. }) ==> (r matches Err(
                AuthApiError::MalformedRequest,
            ) && final(self).pending() == old(self).pending()),
            body matches LoginRequest::EmailPassword { email, password } ==> {
                &&& !valid_email(email@) ==> (r matches Err(AuthApiError::InvalidEmail(_)) && final(self).pending() == old(self).pending())
                &&& valid_email(email@) && password@.len() < crate::domain::MIN_PASSWORD_LEN ==> (
                r matches Err(AuthApiError::PasswordTooShort(l)) && l == password@.len() && final(self).pending() == old(self).pending())
                &&& valid_email(email@) && password@.len() >= crate::domain::MIN_PASSWORD_LEN
                    && !old(self).creds_ok(email@, password@) ==> (r matches Err(
                    AuthApiError::Unauthorized,
                ) && final(self).pending() == old(self).pending())
                &&& valid_email(email@) && password@.len() >= crate::domain::MIN_PASSWORD_LEN
                    && old(self).creds_ok(email@, password@) && old(self).users()[email@].two_factor
                    == TwoFactorMethod::Email ==> (r matches Ok(resp) && resp matches
                LoginResponse::TwoFactor { email: e, method, message: _, id, code } && e@ == email@
                    && method == TwoFactorMethod::Email && final(self).pending() == old(self).pending().insert(email@, PendingV { id: id@, code: code@ }))
                &&& valid_email(email@) && password@.len() >= crate::domain::MIN_PASSWORD_LEN
                    && old(self).creds_ok(email@, password@) && old(self).users()[email@].two_factor
                    == TwoFactorMethod::Disabled ==> (final(self).pending() == old(self).pending()
                    && (r matches Ok(resp) ==> resp matches LoginResponse::Success {
                    email: e,
                    token,
                } && e@ == email@ && (old(self).spec_jwt().secret.spec_keys_matched()
                    ==> session_token_for(
                    old(self).spec_jwt().secret,
                    token@,
                    email@,
                    (now + SESSION_TTL_SECS) as u64,
                ))) && (r matches Err(err) ==> err matches AuthApiError::InvalidCredentials) && (
                !old(self).spec_jwt().secret.spec_es256() ==> r is Ok))
            },
    {
        match body {
            LoginRequest::EmailPassword { email, password } => {
                let email = match Email::parse(email.as_str()) {
                    Ok(e) => e,
                    Err(crate::errors::DataError::InvalidEmail(s)) => {
                        return Err(AuthApiError::InvalidEmail(s));
                    },
                    Err(_) => {
                        proof {
                            assert(false);
                        }
                        return Err(AuthApiError::MalformedRequest);
                    },
                };
                let password = match Password::parse(password.as_str()) {
                    Ok(p) => p,
                    Err(crate::errors::DataError::PasswordTooShort(l)) => {
                        return Err(AuthApiError::PasswordTooShort(l));
                    },
                    Err(_) => {
                        proof {
                            assert(false);
                        }
                        return Err(AuthApiError::MalformedRequest);
                    },
                };
                let user = match self.user_store.get_user(&email) {
                    Ok(u) => u,
                    Err(_) => {
                        return Err(AuthApiError::Unauthorized);
                    },
                };
                match self.user_store.validate_credentials(&email, &password) {
                    Ok(_) => (),
                    Err(_) => {
                        return Err(AuthApiError::Unauthorized);
                    },
                }
                match user.two_factor {
                    TwoFactorMethod::Email => {
                        let (id, code) = match self.two_factor.new_login_attempt(
                            &email,
                            &user.two_factor,
                        ) {
                            Ok(pair) => pair,
                            Err(_) => {
                                proof {
                                    assert(false);
                                }
                                return Err(AuthApiError::TwoFactorCodeGenFailed);
                            },
                        };
                        Ok(
                            LoginResponse::TwoFactor {
                                email,
                                method: user.two_factor,
                                message: String::from_str("Check your email"),
                                id,
                                code,
                            },
                        )
                    },
                    TwoFactorMethod::Disabled => {
                        match generate_auth_token_at(&email, &self.jwt.secret, now) {
                            Ok(token) => Ok(LoginResponse::Success { email, token }),
                            Err(_) => Err(AuthApiError::InvalidCredentials),
                        }
                    },
                }
            },
            LoginRequest::MagicLink { .. } => Err(AuthApiError::MalformedRequest),
            LoginRequest::Passkey { .. } => Err(AuthApiError::MalformedRequest),
        }
    }

    /// First-factor login against the clock now.
    pub fn login(&mut self, body: &LoginRequest) -> (r: Result<LoginResponse, AuthApiError>)
        requires
            old(self).wf(),
        ensures
            final(self).wf(),
            final(self).users() == old(self).users(),
            final(self).banned() == old(self).banned(),
            final(self).spec_jwt() == old(self).spec_jwt(),
            !(body matches LoginRequest::EmailPassword { .. }) ==> (r matches Err(
                AuthApiError::MalformedRequest,
            ) && final(self).pending() == old(self).pending()),
            body matches LoginRequest::EmailPassword { email, password } ==> {
                &&& !valid_email(email@) ==> (r matches Err(AuthApiError::InvalidEmail(_))
                    && final(self).pending() == old(self).pending())
                &&& valid_email(email@) && password@.len() < crate::domain::MIN_PASSWORD_LEN ==> (
                r matches Err(AuthApiError::PasswordTooShort(l)) && l == password@.len()
                    && final(self).pending() == old(self).pending())
                &&& valid_email(email@) && password@.len() >= crate::domain::MIN_PASSWORD_LEN
                    && !old(self).creds_ok(email@, password@) ==> (r matches Err(
                    AuthApiError::Unauthorized,
                ) && final(self).pending() == old(self).pending())
                &&& valid_email(email@) && password@.len() >= crate::domain::MIN_PASSWORD_LEN
                    && old(self).creds_ok(email@, password@) && old(self).users()[email@].two_factor
                    == TwoFactorMethod::Email ==> (r matches Ok(resp) && resp matches
                LoginResponse::TwoFactor { email: e, method, message: _, id, code } && e@ == email@
                    && method == TwoFactorMethod::Email && final(self).pending() == old(
                    self,
                ).pending().insert(email@, PendingV { id: id@, code: code@ }))
                &&& valid_email(email@) && password@.len() >= crate::domain::MIN_PASSWORD_LEN
                    && old(self).creds_ok(email@, password@) && old(self).users()[email@].two_factor
                    == TwoFactorMethod::Disabled ==> (final(self).pending() == old(self).pending()
                    && (r matches Ok(resp) ==> resp matches LoginResponse::Success {
                    email: e,
                    token,
                } && e@ == email@ && (old(self).spec_jwt().secret.spec_keys_matched()
                    ==> exists|exp: u64|
                    #[trigger] session_token_for(
                        old(self).spec_jwt().secret,
                        token@,
                        email@,
                        exp,
                    ))) && (r matches Err(err) ==> err matches AuthApiError::InvalidCredentials)
                    && (!old(self).spec_jwt().secret.spec_es256() ==> r is Ok))
            },
    {
        let now = crate::token::now_unix();
        self.login_at(body, now)
    }

    /// Second-factor completion: checks the submitted triple against the
    /// pending challenge. Any parse failure, missing challenge or mismatch
    /// is reported uniformly as unauthorized.
    pub fn verify_2fa(&self, body: &Verify2FARequest) -> (r: Result<Email, AuthApiError>)
        requires
            self.wf(),
        ensures
            r matches Ok(e) ==> {
                &&& e@ == body.email@
                &&& e.wf()
                &&& crate::two_factor::acceptable_uuid_chars(body.id@)
                &&& crate::two_factor::valid_code(body.code@)
                &&& self.pending().contains_key(e@)
                &&& self.pending()[e@].code == body.code@
                &&& (crate::two_factor::valid_uuid_chars(body.id@) ==> self.pending()[e@].id
                    == body.id@)
            },
            r matches Err(err) ==> err matches AuthApiError::Unauthorized,
            !self.pending().contains_key(body.email@) ==> r matches Err(
                AuthApiError::Unauthorized,
            ),
            valid_email(body.email@) && crate::two_factor::valid_uuid_chars(body.id@)
                && crate::two_factor::valid_code(body.code@) && self.pending().contains_key(
                body.email@,
            ) && self.pending()[body.email@].id == body.id@ && self.pending()[body.email@].code
                == body.code@ ==> r is Ok,
    {
        let email = match Email::parse(body.email.as_str()) {
            Ok(e) => e,
            Err(_) => {
                return Err(AuthApiError::Unauthorized);
            },
        };
        let id = match LoginAttemptId::try_from(body.id.as_str()) {
            Ok(i) => i,
            Err(_) => {
                return Err(AuthApiError::Unauthorized);
            },
        };
        let code = match TwoFactorCode::try_from(body.code.as_str()) {
            Ok(c) => c,
            Err(_) => {
                return Err(AuthApiError::Unauthorized);
            },
        };
        match self.two_factor.verify_code(&email, &id, &code) {
            Ok(true) => Ok(email),
            Ok(false) => Err(AuthApiError::Unauthorized),
            Err(_) => Err(AuthApiError::Unauthorized),
        }
    }

    /// Second-factor completion followed by token issuance, at a given
    /// clock reading: the only path on which a challenged user obtains a
    /// session token.
    pub fn verify_2fa_login_at(&self, body: &Verify2FARequest, now: u64) -> (r: Result<
        LoginResponse,
        AuthApiError,
    >)
        requires
            self.wf(),
            now <= MAX_NOW,
        ensures
            r matches Ok(resp) ==> {
                &&& resp matches LoginResponse::Success { email, token }
                &&& email@ == body.email@
                &&& self.pending().contains_key(email@)
                &&& self.pending()[email@].code == body.code@
                &&& (self.spec_jwt().secret.spec_keys_matched() ==> session_token_for(
                    self.spec_jwt().secret,
                    token@,
                    email@,
                    (now + SESSION_TTL_SECS) as u64,
                ))
            },
            r matches Err(err) ==> (err matches AuthApiError::Unauthorized || err matches
            AuthApiError::InvalidCredentials),
            !self.pending().contains_key(body.email@) ==> r matches Err(
                AuthApiError::Unauthorized,
            ),
            !valid_email(body.email@) ==> r matches Err(AuthApiError::Unauthorized),
            !crate::two_factor::acceptable_uuid_chars(body.id@) ==> r matches Err(
                AuthApiError::Unauthorized,
            ),
            !crate::two_factor::valid_code(body.code@) ==> r matches Err(
                AuthApiError::Unauthorized,
            ),
            self.pending().contains_key(body.email@) && self.pending()[body.email@].code
                != body.code@ ==> r matches Err(AuthApiError::Unauthorized),
            crate::two_factor::valid_uuid_chars(body.id@) && self.pending().contains_key(
                body.email@,
            ) && self.pending()[body.email@].id != body.id@ ==> r matches Err(
                AuthApiError::Unauthorized,
            ),
            valid_email(body.email@) && crate::two_factor::valid_uuid_chars(body.id@)
                && crate::two_factor::valid_code(body.code@) && self.pending().contains_key(
                body.email@,
            ) && self.pending()[body.email@].id == body.id@ && self.pending()[body.email@].code
                == body.code@ ==> (r is Ok || r matches Err(AuthApiError::InvalidCredentials)),
            valid_email(body.email@) && crate::two_factor::valid_uuid_chars(body.id@)
                && crate::two_factor::valid_code(body.code@) && self.pending().contains_key(
                body.email@,
            ) && self.pending()[body.email@].id == body.id@ && self.pending()[body.email@].code
                == body.code@ && !self.spec_jwt().secret.spec_es256() ==> r is Ok,
    {
        let email = match self.verify_2fa(body) {
            Ok(e) => e,
            Err(e) => {
                return Err(e);
            },
        };
        match generate_auth_token_at(&email, &self.jwt.secret, now) {
            Ok(token) => Ok(LoginResponse::Success { email, token }),
            Err(_) => Err(AuthApiError::InvalidCredentials),
        }
    }

    /// Second-factor completion followed by token issuance against the
    /// clock now.
    pub fn verify_2fa_login(&self, body: &Verify2FARequest) -> (r: Result<
        LoginResponse,
        AuthApiError,
    >)
        requires
            self.wf(),
        ensures
            r matches Ok(resp) ==> {
                &&& resp matches LoginResponse::Success { email, token }
                &&& email@ == body.email@
                &&& self.pending().contains_key(email@)
                &&& self.pending()[email@].code == body.code@
                &&& (self.spec_jwt().secret.spec_keys_matched() ==> exists|exp: u64|
                    #[trigger] session_token_for(self.spec_jwt().secret, token@, email@, exp))
            },
            r matches Err(err) ==> (err matches AuthApiError::Unauthorized || err matches
            AuthApiError::InvalidCredentials),
            !self.pending().contains_key(body.email@) ==> r matches Err(
                AuthApiError::Unauthorized,
            ),
            self.pending().contains_key(body.email@) && self.pending()[body.email@].code
                != body.code@ ==> r matches Err(AuthApiError::Unauthorized),
            crate::two_factor::valid_uuid_chars(body.id@) && self.pending().contains_key(
                body.email@,
            ) && self.pending()[body.email@].id != body.id@ ==> r matches Err(
                AuthApiError::Unauthorized,
            ),
            valid_email(body.email@) && crate::two_factor::valid_uuid_chars(body.id@)
                && crate::two_factor::valid_code(body.code@) && self.pending().contains_key(
                body.email@,
            ) && self.pending()[body.email@].id == body.id@ && self.pending()[body.email@].code
                == body.code@ && !self.spec_jwt().secret.spec_es256() ==> r is Ok,
    {
        let now = crate::token::now_unix();
        self.verify_2fa_login_at(body, now)
    }

    /// Logout at a given clock reading: a missing token is a caller error,
    /// an unacceptable token is unauthorized, and a valid one is written
    /// to the revocation list.
    pub fn logout_at(&mut self, token: Option<&str>, now: u64) -> (r: Result<(), AuthApiError>)
        requires
            old(self).wf(),
        ensures
            final(self).wf(),
            final(self).users() == old(self).users(),
            final(self).pending() == old(self).pending(),
            final(self).spec_jwt() == old(self).spec_jwt(),
            token is None ==> (r matches Err(AuthApiError::MissingToken) && final(self).banned()
                == old(self).banned()),
            token matches Some(t) ==> {
                &&& (exists|sub: Seq<char>, exp: u64|
                    #[trigger] session_token_for(old(self).spec_jwt().secret, t@, sub, exp) && exp > now)
                    ==> (r is Ok && final(self).banned() == old(self).banned().insert(t@))
                &&& !(exists|sub: Seq<char>, exp: u64|
                    #[trigger] session_token_for(old(self).spec_jwt().secret, t@, sub, exp) && exp > now)
                    ==> (r matches Err(AuthApiError::InvalidToken) && final(self).banned() == old(self).banned())
            },
    {
        let t = match token {
            Some(t) => t,
            None => {
                return Err(AuthApiError::MissingToken);
            },
        };
        match validate_token_at(t, &self.jwt.secret, now) {
            Ok(_) => (),
            Err(_) => {
                return Err(AuthApiError::InvalidToken);
            },
        }
        match self.banned_tokens.ban_token(t) {
            Ok(()) => Ok(()),
            Err(_) => {
                proof {
                    assert(false);
                }
                Err(AuthApiError::MissingToken)
            },
        }
    }

    /// Logout against the clock now.
    pub fn logout(&mut self, token: Option<&str>) -> (r: Result<(), AuthApiError>)
        requires
            old(self).wf(),
        ensures
            final(self).wf(),
            final(self).users() == old(self).users(),
            final(self).pending() == old(self).pending(),
            final(self).spec_jwt() == old(self).spec_jwt(),
            token is None ==> (r matches Err(AuthApiError::MissingToken) && final(self).banned()
                == old(self).banned()),
            token matches Some(t) ==> (final(self).banned() == old(self).banned() || final(self).banned() == old(self).banned().insert(t@)),
            token matches Some(t) ==> (r is Ok ==> final(self).banned() == old(
                self,
            ).banned().insert(t@)),
    {
        let now = crate::token::now_unix();
        self.logout_at(token, now)
    }

    /// Token verification at a given clock reading: the revocation list is
    /// consulted first, before any cryptographic work; a revoked token
    /// never verifies.
    pub fn verify_token_at(&self, token: &str, now: u64) -> (r: Result<(), AuthApiError>)
        requires
            self.wf(),
        ensures
            r is Ok <==> self.token_acceptable(token@, now),
            self.banned().contains(token@) ==> r matches Err(AuthApiError::Unauthorized),
            !self.banned().contains(token@) && !(exists|sub: Seq<char>, exp: u64|
                #[trigger] session_token_for(self.spec_jwt().secret, token@, sub, exp) && exp > now)
                ==> r matches Err(AuthApiError::InvalidToken),
    {
        if self.banned_tokens.is_token_banned(token) {
            return Err(AuthApiError::Unauthorized);
        }
        match validate_token_at(token, &self.jwt.secret, now) {
            Ok(_) => Ok(()),
            Err(_) => Err(AuthApiError::InvalidToken),
        }
    }

    /// Token verification against the clock now.
    pub fn verify_token(&self, token: &str) -> (r: Result<(), AuthApiError>)
        requires
            self.wf(),
        ensures
            self.banned().contains(token@) ==> r matches Err(AuthApiError::Unauthorized),
            r matches Err(AuthApiError::Unauthorized) ==> self.banned().contains(token@),
            r matches Err(err) ==> (err matches AuthApiError::Unauthorized || err matches
            AuthApiError::InvalidToken),
            r is Ok ==> (!self.banned().contains(token@) && exists|sub: Seq<char>, exp: u64|
                #[trigger] session_token_for(self.spec_jwt().secret, token@, sub, exp)),
    {
        let now = crate::token::now_unix();
        self.verify_token_at(token, now)
    }
}

/// A revoked token never verifies, whatever its signature and expiry: the
/// revocation check gates every verification.
pub proof fn lemma_revoked_token_rejected(s: AuthService, token: Seq<char>, now: u64)
    requires
        s.banned().contains(token),
    ensures
        !s.token_acceptable(token, now),
{
}

} // verus!
