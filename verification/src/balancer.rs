use vstd::prelude::*;

verus! {

use vstd::string::StringExecFns;
use crate::errors::GatewayError;
use crate::upstream::{UpstreamRegistry, registry_has_addr};

/// Relies on rand's random_range: a uniformly distributed index below `n`,
/// drawn from the thread-local generator. Nothing more is promised of a
/// random value.
#[verifier::external_body]
fn random_below(n: usize) -> (r: usize)
    requires
        n >= 1,
    ensures
        r < n,
{
    rand::random_range(0..n)
}

/// The deterministic heart of power-of-two-choices: of two candidates, the
/// one with the strictly lower active-connection count wins; a tie goes to
/// the second.
pub fn pick_less_loaded(
    first: usize,
    count_first: usize,
    second: usize,
    count_second: usize,
) -> (r: usize)
    ensures
        r == if count_first < count_second {
            first
        } else {
            second
        },
{
    if count_first < count_second {
        first
    } else {
        second
    }
}

/// Pick one upstream address for a route: an empty endpoint list falls back
/// to the default upstream; otherwise two endpoints are drawn independently
/// and uniformly with replacement and the less loaded one wins. An endpoint
/// listed in a route but absent from the registry is a config/registry
/// desync and surfaces as an internal error, never a silent misroute.
pub fn p2c_pick(
    endpoints: &Vec<String>,
    registry: &UpstreamRegistry,
    default_server: &String,
) -> (r: Result<String, GatewayError>)
    ensures
        match r {
            Ok(addr) => {
                if endpoints@.len() == 0 {
                    addr@ == default_server@
                } else {
                    (exists|i: int| 0 <= i < endpoints@.len() && endpoints@[i]@ == addr@)
                        && registry_has_addr(registry.servers@, addr@)
                }
            },
            Err(e) => e is Io && endpoints@.len() > 0 && (exists|i: int|
                0 <= i < endpoints@.len() && !registry_has_addr(registry.servers@, endpoints@[i]@)),
        },
        (endpoints@.len() > 0 && forall|i: int|
            0 <= i < endpoints@.len() ==> registry_has_addr(
                registry.servers@,
                #[trigger] endpoints@[i]@,
            )) ==> r is Ok,
{
    let n = endpoints.len();
    if n == 0 {
        return Ok(default_server.clone());
    }
    let first = random_below(n);
    let second = random_below(n);
    let fi = registry.find_server(&endpoints[first]);
    let si = registry.find_server(&endpoints[second]);
    match (fi, si) {
        (Some(f), Some(s)) => {
            let count_first = registry.servers[f].active_connections;
            let count_second = registry.servers[s].active_connections;
            let winner = pick_less_loaded(first, count_first, second, count_second);
            Ok(endpoints[winner].clone())
        },
        _ => Err(GatewayError::Io(String::from_str("upstream registry desync"))),
    }
}

} // verus!
