//! Service configuration: network address, telemetry switch, environment,
//! signing keys, mail settings and application URLs, with the defaults a
//! development deployment starts from.

use vstd::prelude::*;

use crate::domain::{Email, Password};
use crate::errors::AuthApiError;
use crate::text::dec_str;
use crate::token::JwtConfig;

verus! {

pub fn default_false() -> (r: bool)
    ensures
        !r,
{
    false
}

pub fn default_true() -> (r: bool)
    ensures
        r,
{
    true
}

pub fn default_server_host() -> (r: String)
    ensures
        r@ == "0.0.0.0"@,
{
    String::from_str("0.0.0.0")
}

pub fn default_server_port() -> (r: u16)
    ensures
        r == 3000,
{
    3000
}

pub fn default_allowed_origins() -> (r: Option<Vec<String>>)
    ensures
        r is None,
{
    None
}

pub fn default_app_url() -> (r: String)
    ensures
        r@ == "http://localhost:5173"@,
{
    String::from_str("http://localhost:5173")
}

pub fn default_auth_redirect_url() -> (r: String)
    ensures
        r@ == "http://localhost:5173/login/2fa"@,
{
    String::from_str("http://localhost:5173/login/2fa")
}

/// Whether telemetry is switched on.
#[derive(Debug, Clone)]
pub struct TelemetryConfig {
    pub enabled: bool,
}

impl Default for TelemetryConfig {
    fn default() -> (r: TelemetryConfig)
        ensures
            !r.enabled,
    {
        TelemetryConfig { enabled: default_false() }
    }
}

/// The deployment environment.
#[derive(Debug, Clone, Copy, PartialEq, Eq, Structural)]
pub enum ServerEnv {
    Development,
    Production,
}

impl Default for ServerEnv {
    fn default() -> (r: ServerEnv)
        ensures
            r == ServerEnv::Development,
    {
        ServerEnv::Development
    }
}

/// Where the server listens, and which extra origins it allows.
#[derive(Debug, Clone)]
pub struct ServerConfig {
    pub host: String,
    pub port: u16,
    pub allowed_origins: Option<Vec<String>>,
}

impl ServerConfig {
    /// The `host:port` form of the listen address.
    pub fn address(&self) -> (r: String)
        ensures
            r@ == self.host@ + ":"@ + dec_str(self.port as nat),
    {
        let mut out = self.host.clone();
        out.append(":");
        let port = crate::text::u64_to_dec(self.port as u64);
        out.append(port.as_str());
        out
    }
}

impl Default for ServerConfig {
    fn default() -> (r: ServerConfig)
        ensures
            r.host@ == "0.0.0.0"@,
            r.port == 3000,
            r.allowed_origins is None,
    {
        ServerConfig {
            host: default_server_host(),
            port: default_server_port(),
            allowed_origins: default_allowed_origins(),
        }
    }
}

/// The sibling application's URLs: its site, and where a second-factor
/// challenge link lands.
#[derive(Debug, Clone)]
pub struct AppConfig {
    pub url: String,
    pub two_factor_redirect_url: String,
}

impl Default for AppConfig {
    fn default() -> (r: AppConfig)
        ensures
            r.url@ == "http://localhost:5173"@,
            r.two_factor_redirect_url@ == "http://localhost:5173/login/2fa"@,
    {
        AppConfig { url: default_app_url(), two_factor_redirect_url: default_auth_redirect_url() }
    }
}

/// SMTP settings for the mail collaborator.
#[derive(Debug)]
pub struct EmailConfig {
    pub smtp_host: String,
    pub smtp_port: u16,
    pub sender: Email,
    pub password: Password,
}

impl Clone for EmailConfig {
    fn clone(&self) -> (r: EmailConfig)
        ensures
            r == *self,
    {
        EmailConfig {
            smtp_host: self.smtp_host.clone(),
            smtp_port: self.smtp_port,
            sender: self.sender.clone(),
            password: self.password.clone(),
        }
    }
}

impl Default for EmailConfig {
    fn default() -> (r: EmailConfig)
        ensures
            r.smtp_host@ == "127.0.0.1"@,
            r.smtp_port == 1025,
            r.sender@ == "dev@local.test"@,
    {
        proof {
            reveal_strlit("dev@local.test");
            reveal_strlit("password123-ignore-me");
            assert(crate::domain::valid_email_split("dev@local.test"@, 3, 9));
        }
        let sender = match Email::parse("dev@local.test") {
            Ok(e) => e,
            Err(_) => {
                proof {
                    assert(false);
                }
                Email::parse("dev@local.test").unwrap()
            },
        };
        let password = match Password::parse("password123-ignore-me") {
            Ok(p) => p,
            Err(_) => {
                proof {
                    assert(false);
                }
                Password::parse("password123-ignore-me").unwrap()
            },
        };
        EmailConfig {
            smtp_host: String::from_str("127.0.0.1"),
            smtp_port: 1025,
            sender,
            password,
        }
    }
}

/// The context an email-delivered challenge renders with.
#[derive(Debug)]
pub struct LoginTemplate<'a> {
    pub email: &'a str,
    pub code: &'a str,
    pub site_url: &'a str,
    pub redirect_url: &'a str,
}

/// The email collaborator: anything that can deliver a message to a
/// recipient. Implementations live outside the verified core, next to the
/// transport they use.
pub trait EmailClient {
    fn send_email(&self, recipient: &Email, subject: &str, content: &str) -> Result<
        (),
        AuthApiError,
    >;
}

/// The mail collaborator's configuration holder.
#[derive(Debug)]
pub struct Emailer {
    pub config: EmailConfig,
}

impl Emailer {
    pub fn new(config: &EmailConfig) -> (r: Emailer)
        ensures
            r.config == *config,
    {
        Emailer { config: config.clone() }
    }
}

/// The body a protected resource answers with once a token verifies.
#[derive(Debug)]
pub struct ProtectedRouteResponse {
    pub img_url: String,
}

/// The whole service configuration.
#[derive(Debug, Clone)]
pub struct Config {
    pub server: ServerConfig,
    pub telemetry: TelemetryConfig,
    pub env: ServerEnv,
    pub jwt: JwtConfig,
    pub email: EmailConfig,
    pub app: AppConfig,
}

impl Default for Config {
    fn default() -> (r: Config)
        ensures
            r.server.port == 3000,
            r.env == ServerEnv::Development,
            r.jwt.cookie_name@ == "jwt_auth_token"@,
    {
        Config {
            server: ServerConfig::default(),
            telemetry: TelemetryConfig::default(),
            env: ServerEnv::default(),
            jwt: JwtConfig::default(),
            email: EmailConfig::default(),
            app: AppConfig::default(),
        }
    }
}

} // verus!
