//! An HTTP reverse-proxy gateway core: route matching, power-of-two-choices
//! load balancing, a borrow/release connection pool, response caching, token
//! bucket rate limiting and a JWT auth gate, all over hot-swappable
//! configuration snapshots. Each component states its behaviour in contracts
//! that Verus checks; the I/O around the core lives outside this crate.

pub mod assoc;
pub mod auth;
pub mod balancer;
pub mod cache;
pub mod config;
pub mod engine;
pub mod errors;
pub mod pool;
pub mod rate_limit;
pub mod routing;
pub mod strutil;
pub mod upstream;
