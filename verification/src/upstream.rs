use vstd::prelude::*;

verus! {

use crate::config::Config;
use crate::pool::{ConnectionPool, HealthState, Protocol};

/// One upstream replica: its live load counter, health placeholder,
/// connection pool, auth requirement and per-request token cost. Created
/// fresh on every registry rebuild.
pub struct UpstreamServer {
    pub active_connections: usize,
    pub health_state: HealthState,
    pub pool: ConnectionPool,
    pub req_auth: bool,
    pub token_weight: u64,
}

impl UpstreamServer {
    pub open spec fn wf(&self) -> bool {
        self.pool.wf()
    }

    pub open spec fn spec_addr(&self) -> Seq<char> {
        self.pool.server_addr@
    }

    /// A fresh upstream with no live connections and an empty pool.
    pub fn new(
        address: String,
        max_connections: usize,
        protocol: Protocol,
        req_auth: bool,
        token_weight: u64,
    ) -> (u: Self)
        ensures
            u.wf(),
            u.active_connections == 0,
            u.health_state == HealthState::Alive,
            u.spec_addr() == address@,
            u.pool.protocol == protocol,
            u.pool@.max_connections == max_connections,
            u.pool@.total_connections == 0,
            u.pool@.idle.len() == 0,
            u.req_auth == req_auth,
            u.token_weight == token_weight,
    {
        UpstreamServer {
            active_connections: 0,
            health_state: HealthState::Alive,
            pool: ConnectionPool::new(address, max_connections, protocol),
            req_auth,
            token_weight,
        }
    }

    /// Count a newly opened connection towards the live load.
    pub fn increment_active(&mut self)
        requires
            old(self).active_connections < usize::MAX,
        ensures
            *final(self) == (UpstreamServer {
                active_connections: (old(self).active_connections + 1) as usize,
                ..*old(self)
            }),
    {
        self.active_connections = self.active_connections + 1;
    }

    /// Un-count a connection that died on a transport failure; the counter
    /// never goes negative.
    pub fn decrement_active(&mut self)
        ensures
            *final(self) == (UpstreamServer {
                active_connections: if old(self).active_connections > 0 {
                    (old(self).active_connections - 1) as usize
                } else {
                    0
                },
                ..*old(self)
            }),
    {
        if self.active_connections > 0 {
            self.active_connections = self.active_connections - 1;
        }
    }
}

/// Some registry entry serves address `a`.
pub open spec fn registry_has_addr(s: Seq<UpstreamServer>, a: Seq<char>) -> bool {
    exists|i: int| 0 <= i < s.len() && s[i].spec_addr() == a
}

/// No two registry entries share an address.
pub open spec fn unique_addrs(s: Seq<UpstreamServer>) -> bool {
    forall|i: int, j: int| 0 <= i < j < s.len() ==> s[i].spec_addr() != s[j].spec_addr()
}

/// The mapping from upstream address to its `UpstreamServer`, rebuilt
/// wholesale on every configuration change and swapped in atomically.
pub struct UpstreamRegistry {
    pub servers: Vec<UpstreamServer>,
}

impl UpstreamRegistry {
    pub open spec fn wf(&self) -> bool {
        &&& unique_addrs(self.servers@)
        &&& forall|i: int| 0 <= i < self.servers@.len() ==> (#[trigger] self.servers@[i]).wf()
    }

    pub fn new() -> (r: Self)
        ensures
            r.wf(),
            r.servers@.len() == 0,
    {
        UpstreamRegistry { servers: Vec::new() }
    }

    /// The index of the upstream serving `addr`, scanning from the front.
    pub fn find_server(&self, addr: &String) -> (r: Option<usize>)
        ensures
            match r {
                Some(i) => i < self.servers@.len() && self.servers@[i as int].spec_addr() == addr@
                    && (forall|j: int| 0 <= j < i ==> self.servers@[j].spec_addr() != addr@),
                None => !registry_has_addr(self.servers@, addr@),
            },
    {
        let n = self.servers.len();
        let mut i: usize = 0;
        while i < n
            invariant
                i <= n,
                n == self.servers@.len(),
                forall|j: int| 0 <= j < i ==> self.servers@[j].spec_addr() != addr@,
            decreases n - i,
        {
            if self.servers[i].pool.server_addr == *addr {
                return Some(i);
            }
            i = i + 1;
        }
        None
    }

}

/// Two upstream entries carry the same observable state: equal counters,
/// flags and pool model. (The idle queue is compared by its contents, not by
/// the queue value itself.)
pub open spec fn same_server_state(a: UpstreamServer, b: UpstreamServer) -> bool {
    &&& a.active_connections == b.active_connections
    &&& a.health_state == b.health_state
    &&& a.req_auth == b.req_auth
    &&& a.token_weight == b.token_weight
    &&& a.pool.server_addr == b.pool.server_addr
    &&& a.pool.protocol == b.pool.protocol
    &&& a.pool@ == b.pool@
}

/// Two registries carry the same observable state, entry for entry.
pub open spec fn same_registry_state(x: Seq<UpstreamServer>, y: Seq<UpstreamServer>) -> bool {
    &&& x.len() == y.len()
    &&& forall|j: int| 0 <= j < x.len() ==> same_server_state(#[trigger] x[j], y[j])
}

/// Replacing one registry entry by another that serves the same address and
/// is well-formed preserves registry well-formedness.
proof fn lemma_update_same_addr_wf(s: Seq<UpstreamServer>, i: int, t: Seq<UpstreamServer>)
    requires
        unique_addrs(s),
        forall|k: int| 0 <= k < s.len() ==> (#[trigger] s[k]).wf(),
        0 <= i < s.len(),
        t.len() == s.len(),
        forall|j: int| 0 <= j < s.len() && j != i ==> t[j] == s[j],
        t[i].spec_addr() == s[i].spec_addr(),
        t[i].wf(),
    ensures
        unique_addrs(t),
        forall|k: int| 0 <= k < t.len() ==> (#[trigger] t[k]).wf(),
{
    assert forall|a: int, b: int| 0 <= a < b < t.len() implies t[a].spec_addr()
        != t[b].spec_addr() by {
        assert(s[a].spec_addr() != s[b].spec_addr());
    }
}

impl UpstreamRegistry {
    /// Borrow a connection from the pool of the upstream at index `i`.
    pub fn borrow_from(&mut self, i: usize) -> (r: crate::pool::BorrowOutcome)
        requires
            old(self).wf(),
            i < old(self).servers@.len(),
        ensures
            final(self).wf(),
            final(self).servers@.len() == old(self).servers@.len(),
            forall|j: int|
                0 <= j < old(self).servers@.len() && j != i ==> final(self).servers@[j] == old(
                    self,
                ).servers@[j],
            ({
                let so = old(self).servers@[i as int];
                let su = final(self).servers@[i as int];
                &&& su.pool.server_addr == so.pool.server_addr
                &&& su.pool.protocol == so.pool.protocol
                &&& su.active_connections == so.active_connections
                &&& su.health_state == so.health_state
                &&& su.req_auth == so.req_auth
                &&& su.token_weight == so.token_weight
                &&& (r, su.pool@) == crate::pool::spec_borrow(so.pool@)
            }),
    {
        proof {
            assert(old(self).servers@[i as int].wf());
        }
        let srv: &mut UpstreamServer = &mut self.servers[i];
        let r = srv.pool.try_borrow();
        proof {
            lemma_update_same_addr_wf(old(self).servers@, i as int, self.servers@);
        }
        r
    }

    /// Record a freshly opened connection on the upstream at index `i`: one
    /// more outstanding connection and one more live connection.
    pub fn register_opened_at(&mut self, i: usize)
        requires
            old(self).wf(),
            i < old(self).servers@.len(),
            old(self).servers@[i as int].pool@.idle.len() + old(self).servers@[
                i as int
            ].pool@.total_connections < old(self).servers@[i as int].pool@.max_connections,
            old(self).servers@[i as int].active_connections < usize::MAX,
        ensures
            final(self).wf(),
            final(self).servers@.len() == old(self).servers@.len(),
            forall|j: int|
                0 <= j < old(self).servers@.len() && j != i ==> final(self).servers@[j] == old(
                    self,
                ).servers@[j],
            ({
                let so = old(self).servers@[i as int];
                let su = final(self).servers@[i as int];
                &&& su.pool.server_addr == so.pool.server_addr
                &&& su.pool.protocol == so.pool.protocol
                &&& su.pool@ == (crate::pool::PoolModel {
                    total_connections: so.pool@.total_connections + 1,
                    ..so.pool@
                })
                &&& su.active_connections == so.active_connections + 1
                &&& su.health_state == so.health_state
                &&& su.req_auth == so.req_auth
                &&& su.token_weight == so.token_weight
            }),
    {
        proof {
            assert(old(self).servers@[i as int].wf());
        }
        let srv: &mut UpstreamServer = &mut self.servers[i];
        srv.pool.register_opened();
        srv.active_connections = srv.active_connections + 1;
        proof {
            lemma_update_same_addr_wf(old(self).servers@, i as int, self.servers@);
        }
    }

    /// Release a borrowed connection back to the upstream at index `i`,
    /// exactly once per borrow.
    pub fn release_to(&mut self, i: usize, conn: crate::pool::PooledConnection, reusable: bool)
        requires
            old(self).wf(),
            i < old(self).servers@.len(),
            old(self).servers@[i as int].pool@.total_connections >= 1,
        ensures
            final(self).wf(),
            final(self).servers@.len() == old(self).servers@.len(),
            forall|j: int|
                0 <= j < old(self).servers@.len() && j != i ==> final(self).servers@[j] == old(
                    self,
                ).servers@[j],
            ({
                let so = old(self).servers@[i as int];
                let su = final(self).servers@[i as int];
                &&& su.pool.server_addr == so.pool.server_addr
                &&& su.pool.protocol == so.pool.protocol
                &&& su.pool@ == crate::pool::spec_release(so.pool@, conn.spec_id(), reusable)
                &&& su.active_connections == so.active_connections
                &&& su.health_state == so.health_state
                &&& su.req_auth == so.req_auth
                &&& su.token_weight == so.token_weight
            }),
    {
        proof {
            assert(old(self).servers@[i as int].wf());
        }
        let srv: &mut UpstreamServer = &mut self.servers[i];
        srv.pool.release(conn, reusable);
        proof {
            lemma_update_same_addr_wf(old(self).servers@, i as int, self.servers@);
        }
    }

    /// A transport-level send failure killed a connection of the upstream at
    /// index `i`: un-count it from the live load, never below zero.
    pub fn note_send_failure(&mut self, i: usize)
        requires
            old(self).wf(),
            i < old(self).servers@.len(),
        ensures
            final(self).wf(),
            final(self).servers@.len() == old(self).servers@.len(),
            forall|j: int|
                0 <= j < old(self).servers@.len() && j != i ==> final(self).servers@[j] == old(
                    self,
                ).servers@[j],
            final(self).servers@[i as int] == (UpstreamServer {
                active_connections: if old(self).servers@[i as int].active_connections > 0 {
                    (old(self).servers@[i as int].active_connections - 1) as usize
                } else {
                    0
                },
                ..old(self).servers@[i as int]
            }),
    {
        proof {
            assert(old(self).servers@[i as int].wf());
        }
        let srv: &mut UpstreamServer = &mut self.servers[i];
        srv.decrement_active();
        proof {
            lemma_update_same_addr_wf(old(self).servers@, i as int, self.servers@);
        }
    }
}

/// The upstream listed under some route of the configuration.
pub open spec fn config_lists_addr(c: &Config, a: Seq<char>) -> bool {
    exists|r: int, e: int|
        0 <= r < c.routes@.len() && 0 <= e < c.routes@[r].1.endpoints@.len()
            && c.routes@[r].1.endpoints@[e]@ == a
}

/// A fresh registry entry carries the auth requirement and token weight of a
/// route that lists its address, an empty pool of capacity 100, and HTTP/1.
pub open spec fn server_from_some_route(c: &Config, u: UpstreamServer) -> bool {
    exists|r: int|
        0 <= r < c.routes@.len() && {
            let rc = #[trigger] c.routes@[r].1;
            &&& exists|e: int| 0 <= e < rc.endpoints@.len() && rc.endpoints@[e]@ == u.spec_addr()
            &&& u.req_auth == rc.needs_auth
            &&& u.token_weight == rc.token_weight
        }
}

/// A registry freshly derived from the configuration: it serves exactly the
/// listed endpoint addresses, and every entry is a fresh HTTP/1 upstream
/// with an empty pool of capacity 100, carrying the auth requirement and
/// token weight of a route that lists it.
pub open spec fn registry_fresh_from_config(s: Seq<UpstreamServer>, config: &Config) -> bool {
    &&& (forall|a: Seq<char>| registry_has_addr(s, a) <==> config_lists_addr(config, a))
    &&& (forall|i: int|
        0 <= i < s.len() ==> {
            let u = #[trigger] s[i];
            &&& server_from_some_route(config, u)
            &&& u.active_connections == 0
            &&& u.health_state == HealthState::Alive
            &&& u.pool.protocol == Protocol::HTTP1
            &&& u.pool@.max_connections == 100
            &&& u.pool@.total_connections == 0
            &&& u.pool@.idle.len() == 0
        })
}

/// Build the upstream registry from the configuration: one fresh
/// `UpstreamServer` per distinct endpoint address listed under any route,
/// each with an empty pool. When several routes list one address, the entry
/// takes the auth requirement and token weight of the last of them.
pub fn init_server_state(config: &Config) -> (reg: UpstreamRegistry)
    ensures
        reg.wf(),
        registry_fresh_from_config(reg.servers@, config),
{
    let mut reg = UpstreamRegistry::new();
    let nr = config.routes.len();
    let mut r: usize = 0;
    while r < nr
        invariant
            r <= nr,
            nr == config.routes@.len(),
            reg.wf(),
            forall|a: Seq<char>|
                registry_has_addr(reg.servers@, a) <==> exists|ri: int, e: int|
                    0 <= ri < r && 0 <= e < config.routes@[ri].1.endpoints@.len()
                        && config.routes@[ri].1.endpoints@[e]@ == a,
            forall|i: int|
                0 <= i < reg.servers@.len() ==> {
                    let u = #[trigger] reg.servers@[i];
                    &&& server_from_some_route(config, u)
                    &&& u.active_connections == 0
                    &&& u.health_state == HealthState::Alive
                    &&& u.pool.protocol == Protocol::HTTP1
                    &&& u.pool@.max_connections == 100
                    &&& u.pool@.total_connections == 0
                    &&& u.pool@.idle.len() == 0
                },
        decreases nr - r,
    {
        let rc: &crate::config::RouteConfig = &config.routes[r].1;
        let ne = rc.endpoints.len();
        let mut e: usize = 0;
        while e < ne
            invariant
                e <= ne,
                r < nr,
                nr == config.routes@.len(),
                ne == config.routes@[r as int].1.endpoints@.len(),
                rc == &config.routes@[r as int].1,
                reg.wf(),
                forall|a: Seq<char>|
                    registry_has_addr(reg.servers@, a) <==> (exists|ri: int, ei: int|
                        0 <= ri < r && 0 <= ei < config.routes@[ri].1.endpoints@.len()
                            && config.routes@[ri].1.endpoints@[ei]@ == a) || (exists|ei: int|
                        0 <= ei < e && config.routes@[r as int].1.endpoints@[ei]@ == a),
                forall|i: int|
                    0 <= i < reg.servers@.len() ==> {
                        let u = #[trigger] reg.servers@[i];
                        &&& server_from_some_route(config, u)
                        &&& u.active_connections == 0
                        &&& u.health_state == HealthState::Alive
                        &&& u.pool.protocol == Protocol::HTTP1
                        &&& u.pool@.max_connections == 100
                        &&& u.pool@.total_connections == 0
                        &&& u.pool@.idle.len() == 0
                    },
            decreases ne - e,
        {
            let addr: &String = &rc.endpoints[e];
            let fresh = UpstreamServer::new(addr.clone(), 100, Protocol::HTTP1, rc.needs_auth, rc.token_weight);
            let ghost pre = reg.servers@;
            let ghost fresh_addr = fresh.spec_addr();
            proof {
                assert(config.routes@[r as int].1.endpoints@[e as int]@ == fresh.spec_addr());
                assert(server_from_some_route(config, fresh));
            }
            match reg.find_server(addr) {
                Some(i) => {
                    let slot: &mut UpstreamServer = &mut reg.servers[i];
                    *slot = fresh;
                    proof {
                        assert(pre[i as int].spec_addr() == fresh_addr);
                        assert(registry_has_addr(pre, fresh_addr));
                        assert forall|a: Seq<char>|
                            registry_has_addr(reg.servers@, a) <==> (registry_has_addr(pre, a) || a
                            == fresh_addr) by {
                            if registry_has_addr(reg.servers@, a) {
                                let w = choose|w: int|
                                    0 <= w < reg.servers@.len() && reg.servers@[w].spec_addr() == a;
                                if w != i as int {
                                    assert(pre[w].spec_addr() == a);
                                }
                            }
                            if registry_has_addr(pre, a) {
                                let w = choose|w: int|
                                    0 <= w < pre.len() && pre[w].spec_addr() == a;
                                if w != i as int {
                                    assert(reg.servers@[w].spec_addr() == a);
                                } else {
                                    assert(reg.servers@[w].spec_addr() == fresh_addr);
                                }
                            }
                            if a == fresh_addr {
                                assert(reg.servers@[i as int].spec_addr() == a);
                            }
                        }
                    }
                },
                None => {
                    reg.servers.push(fresh);
                    proof {
                        assert forall|a: Seq<char>|
                            registry_has_addr(reg.servers@, a) <==> (registry_has_addr(pre, a) || a
                            == fresh_addr) by {
                            if registry_has_addr(reg.servers@, a) {
                                let w = choose|w: int|
                                    0 <= w < reg.servers@.len() && reg.servers@[w].spec_addr() == a;
                                if w < pre.len() as int {
                                    assert(pre[w].spec_addr() == a);
                                }
                            }
                            if registry_has_addr(pre, a) {
                                let w = choose|w: int|
                                    0 <= w < pre.len() && pre[w].spec_addr() == a;
                                assert(reg.servers@[w].spec_addr() == a);
                            }
                            if a == fresh_addr {
                                assert(reg.servers@[pre.len() as int].spec_addr() == a);
                            }
                        }
                    }
                },
            }
            proof {
                let ghost eps = config.routes@[r as int].1.endpoints@;
                assert(eps[e as int]@ == fresh_addr);
                assert forall|a: Seq<char>|
                    registry_has_addr(reg.servers@, a) <==> ((exists|ri: int, ei: int|
                        0 <= ri < r && 0 <= ei < config.routes@[ri].1.endpoints@.len()
                            && config.routes@[ri].1.endpoints@[ei]@ == a) || (exists|ei: int|
                        0 <= ei < e + 1 && eps[ei]@ == a)) by {
                    if registry_has_addr(pre, a) && (exists|ei: int| 0 <= ei < e && eps[ei]@ == a) {
                        let ei = choose|ei: int| 0 <= ei < e && eps[ei]@ == a;
                        assert(0 <= ei < e + 1 && eps[ei]@ == a);
                    }
                    if exists|ei: int| 0 <= ei < e + 1 && eps[ei]@ == a {
                        let ei = choose|ei: int| 0 <= ei < e + 1 && eps[ei]@ == a;
                        if ei < e {
                            assert(registry_has_addr(pre, a));
                        } else {
                            assert(a == fresh_addr);
                        }
                    }
                }
            }
            e = e + 1;
        }
        r = r + 1;
    }
    reg
}

} // verus!
