use vstd::prelude::*;

verus! {

use vstd::string::StringExecFns;

/// The failure taxonomy of the gateway core. Every failing request is
/// answered with exactly one of these, mapped to an HTTP status code by
/// [`GatewayError::status_code`] and to a short human-readable body by
/// [`GatewayError::message`].
#[derive(Debug)]
pub enum GatewayError {
    /// The chosen upstream's connection pool is at capacity.
    Overloaded,
    /// Connecting to, handshaking with, or sending to the upstream failed.
    ConnectionFailed(String),
    /// No configured route matches the request path.
    NotFound,
    /// An internal I/O fault.
    Io(String),
    /// Missing or invalid bearer token on a route that requires auth.
    Unauthorized,
    /// The client's token bucket is exhausted.
    RateLimited,
}

impl GatewayError {
    /// The HTTP status code each failure maps to.
    pub open spec fn spec_status_code(&self) -> u16 {
        match self {
            GatewayError::Overloaded => 503u16,
            GatewayError::ConnectionFailed(_) => 502u16,
            GatewayError::NotFound => 404u16,
            GatewayError::Io(_) => 500u16,
            GatewayError::Unauthorized => 401u16,
            GatewayError::RateLimited => 429u16,
        }
    }

    pub fn status_code(&self) -> (code: u16)
        ensures
            code == self.spec_status_code(),
    {
        match self {
            GatewayError::Overloaded => 503,
            GatewayError::ConnectionFailed(_) => 502,
            GatewayError::NotFound => 404,
            GatewayError::Io(_) => 500,
            GatewayError::Unauthorized => 401,
            GatewayError::RateLimited => 429,
        }
    }

    /// The short human-readable body of the HTTP error response. The detail
    /// of an internal I/O fault is never shown to the client.
    pub open spec fn spec_message(&self) -> Seq<char> {
        match self {
            GatewayError::Overloaded => "Upstream overloaded"@,
            GatewayError::ConnectionFailed(d) => "Failed to connect to upstream: "@ + d@,
            GatewayError::NotFound => "No route found"@,
            GatewayError::Io(_) => "Internal Server Error"@,
            GatewayError::Unauthorized => "Unauthorized"@,
            GatewayError::RateLimited => "Rate Limited"@,
        }
    }

    pub fn message(&self) -> (m: String)
        ensures
            m@ == self.spec_message(),
    {
        match self {
            GatewayError::Overloaded => String::from_str("Upstream overloaded"),
            GatewayError::ConnectionFailed(d) => String::from_str(
                "Failed to connect to upstream: ",
            ).concat(d.as_str()),
            GatewayError::NotFound => String::from_str("No route found"),
            GatewayError::Io(_) => String::from_str("Internal Server Error"),
            GatewayError::Unauthorized => String::from_str("Unauthorized"),
            GatewayError::RateLimited => String::from_str("Rate Limited"),
        }
    }
}

} // verus!
