use vstd::prelude::*;

verus! {

use vstd::string::StringExecFns;
use crate::assoc::unique_keys;

/// Command-line arguments: an optional path to the configuration file.
#[derive(Debug, Clone)]
pub struct CmdArgs {
    pub config: Option<String>,
}

/// The inbound server section of the configuration.
#[derive(Debug, Clone)]
pub struct ServerConfig {
    pub port: u16,
    pub origins: Vec<String>,
}

/// Default port the gateway listens on when the configuration gives none.
pub fn default_port() -> (p: u16)
    ensures
        p == 8080u16,
{
    8080
}

impl Default for ServerConfig {
    fn default() -> (d: Self)
        ensures
            d.port == 8080u16,
            d.origins@.len() == 0,
    {
        ServerConfig { port: default_port(), origins: Vec::new() }
    }
}

/// How bearer tokens are validated: not at all, or as JWTs signed with a
/// shared secret.
#[derive(Debug, Clone)]
pub enum AuthType {
    NoAuth,
    JWT { secret: String, expiration: u16 },
}

impl AuthType {
    pub open spec fn is_jwt(&self) -> bool {
        self is JWT
    }
}

/// An auth policy: the validation method and the paths excluded from it.
#[derive(Debug, Clone)]
pub struct AuthConfig {
    pub method: AuthType,
    pub exclude: Vec<String>,
}

/// Token-bucket defaults. Token quantities are in milli-tokens and rates in
/// milli-tokens per second, so that fractional budgets are exact integers.
#[derive(Debug, Clone, Copy, PartialEq, Eq, Structural)]
pub struct RateLimitConfig {
    pub max_tokens: u64,
    pub refill_rate: u64,
}

/// One logical route: the upstream endpoints it forwards to, its auth
/// requirement, whether its response is statically cached, and the
/// milli-token cost of one request through it.
#[derive(Debug, Clone)]
pub struct RouteConfig {
    pub endpoints: Vec<String>,
    pub auth: Option<AuthConfig>,
    pub is_static: bool,
    pub needs_auth: bool,
    pub token_weight: u64,
}

impl Default for RouteConfig {
    fn default() -> (d: Self)
        ensures
            d.endpoints@.len() == 0,
            d.auth is None,
            !d.is_static,
            !d.needs_auth,
            d.token_weight == 0,
    {
        RouteConfig {
            endpoints: Vec::new(),
            auth: None,
            is_static: false,
            needs_auth: false,
            token_weight: 0,
        }
    }
}

/// The immutable configuration snapshot: replaced wholesale on reload,
/// never mutated in place.
#[derive(Debug, Clone)]
pub struct Config {
    pub server: ServerConfig,
    pub auth: Option<AuthConfig>,
    pub rate_limit: RateLimitConfig,
    pub routes: Vec<(String, RouteConfig)>,
    pub default_server: String,
}

/// The fallback upstream address used when a route lists no endpoints.
pub fn default_socket_addr() -> (a: String)
    ensures
        a@ == "127.0.0.1:80"@,
{
    String::from_str("127.0.0.1:80")
}

impl Config {
    /// Route paths are unique: the route list denotes a map.
    pub open spec fn wf(&self) -> bool {
        unique_keys(self.routes@)
    }
}

impl Default for Config {
    fn default() -> (d: Self)
        ensures
            d.server.port == 8080u16,
            d.auth is None,
            d.rate_limit.max_tokens == 10000u64,
            d.rate_limit.refill_rate == 1000u64,
            d.routes@.len() == 0,
            d.default_server@ == "127.0.0.1:80"@,
            d.wf(),
    {
        Config {
            server: ServerConfig::default(),
            auth: None,
            rate_limit: RateLimitConfig { max_tokens: 10000, refill_rate: 1000 },
            routes: Vec::new(),
            default_server: default_socket_addr(),
        }
    }
}

} // verus!
