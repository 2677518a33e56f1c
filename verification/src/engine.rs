use vstd::prelude::*;

verus! {

use vstd::string::StringExecFns;
use crate::assoc::{has_key, index_of_key};
use crate::auth::{check_auth, gate_applies};
use crate::cache::{
    CacheKey, CacheKeyV, CachedResponse, ResponseCache, StaticCache, cache_has_key, cache_index_of,
    spec_cache_insert,
};
use crate::config::Config;
use crate::errors::GatewayError;
use crate::pool::{BorrowOutcome, PooledConnection, spec_borrow, spec_release};
use crate::rate_limit::{BucketTable, TokenBucket, spec_debit_table, spec_refill_allows, spec_refill_table};
use crate::routing::{RouteTable, route_matches};
use crate::strutil::{is_prefix_of, str_eq};
use crate::upstream::{UpstreamRegistry, registry_fresh_from_config, registry_has_addr};

/// How many entries the dynamic response cache may hold.
pub const DYNAMIC_CACHE_CAPACITY: usize = 1024;

/// The plain values of one inbound request that the gateway core decides on:
/// its method, its path, the client identity it is rate-limited under, and
/// its `Authorization` header if any.
#[derive(Debug)]
pub struct GatewayRequest {
    pub method: String,
    pub path: String,
    pub client: String,
    pub authorization: Option<String>,
}

impl GatewayRequest {
    /// The cache identity of this request. User identity is not yet carried
    /// over from validated claims, so both user fields stay empty.
    pub open spec fn spec_cache_key(&self) -> CacheKeyV {
        CacheKeyV { method: self.method@, path: self.path@, user_id: None, user_role: None }
    }

    pub fn cache_key(&self) -> (k: CacheKey)
        ensures
            k@ == self.spec_cache_key(),
    {
        CacheKey {
            method: self.method.clone(),
            path: self.path.clone(),
            user_id: None,
            user_role: None,
        }
    }
}

/// The value of the first header named `name`, if any.
pub open spec fn spec_first_header(
    h: Seq<(Seq<char>, Seq<char>)>,
    name: Seq<char>,
) -> Option<Seq<char>>
    decreases h.len(),
{
    if h.len() == 0 {
        None
    } else if h[0].0 == name {
        Some(h[0].1)
    } else {
        spec_first_header(h.subrange(1, h.len() as int), name)
    }
}

/// Find the value of the first header named `name`.
pub fn first_header(headers: &Vec<(String, String)>, name: &str) -> (r: Option<String>)
    ensures
        ({
            let hv = headers@.map(|i: int, p: (String, String)| (p.0@, p.1@));
            match r {
                Some(v) => spec_first_header(hv, name@) == Some(v@),
                None => spec_first_header(hv, name@) is None,
            }
        }),
{
    let ghost hv = headers@.map(|i: int, p: (String, String)| (p.0@, p.1@));
    proof {
        assert(hv.subrange(0, hv.len() as int) =~= hv);
    }
    let n = headers.len();
    let mut i: usize = 0;
    while i < n
        invariant
            i <= n,
            n == headers@.len(),
            hv == headers@.map(|k: int, p: (String, String)| (p.0@, p.1@)),
            spec_first_header(hv, name@) == spec_first_header(
                hv.subrange(i as int, hv.len() as int),
                name@,
            ),
        decreases n - i,
    {
        let p: &(String, String) = &headers[i];
        if str_eq(p.0.as_str(), name) {
            proof {
                assert(hv.subrange(i as int, hv.len() as int)[0] == hv[i as int]);
            }
            return Some(p.1.clone());
        }
        proof {
            assert(hv.subrange(i as int, hv.len() as int).subrange(
                1,
                hv.subrange(i as int, hv.len() as int).len() as int,
            ) =~= hv.subrange(i as int + 1, hv.len() as int));
        }
        i = i + 1;
    }
    None
}

/// A response keeps its connection reusable unless it declares
/// `Connection: close` (header names arrive lowercased by the HTTP layer).
pub open spec fn spec_reusable(resp: crate::cache::CachedResponseV) -> bool {
    spec_first_header(resp.headers, "connection"@) != Some("close"@)
}

/// Decide reusability of the connection a response arrived on.
pub fn response_reusable(resp: &CachedResponse) -> (r: bool)
    ensures
        r == spec_reusable(resp@),
{
    match first_header(&resp.headers, "connection") {
        Some(v) => !str_eq(v.as_str(), "close"),
        None => true,
    }
}

/// What `begin_request` decided: answer at once from a cache, refuse with an
/// error, or forward to an upstream along the returned plan.
#[derive(Debug)]
pub enum BeginOutcome {
    Reply(CachedResponse),
    Denied(GatewayError),
    Forward(ForwardPlan),
}

/// How the forwarding layer must obtain the connection: reuse a pooled
/// handle, or open a fresh transport (the pool admitted one).
#[derive(Debug, Clone, Copy, PartialEq, Eq, Structural)]
pub enum ConnPlan {
    Reuse(PooledConnection),
    Open,
}

/// Everything the unverified forwarding layer needs to carry one admitted
/// request to its upstream and hand the outcome back.
#[derive(Debug)]
pub struct ForwardPlan {
    pub route_index: usize,
    pub upstream: usize,
    pub conn: ConnPlan,
    pub cache_key: CacheKey,
    pub store_cache: bool,
}

/// What the unverified forwarding layer reports back: the response head and
/// body assembled into cacheable form, or a transport-level send failure.
#[derive(Debug)]
pub enum ForwardOutcome {
    Success(CachedResponse),
    SendFailed,
}

/// The process-wide aggregate the request path reads: the configuration
/// snapshot and everything derived from it. The unverified server wraps it
/// in an atomically swappable cell; each field here is replaced wholesale,
/// never torn.
pub struct AppState {
    pub config: Config,
    pub route_table: RouteTable,
    pub registry: UpstreamRegistry,
    pub cache: ResponseCache,
    pub static_cache: StaticCache,
    pub user_tokens: BucketTable,
}

impl AppState {
    pub open spec fn wf(&self) -> bool {
        &&& self.config.wf()
        &&& self.registry.wf()
        &&& self.cache.wf()
        &&& self.static_cache.wf()
        &&& self.user_tokens.wf()
        &&& self.route_table.routes@.len() == self.config.routes@.len()
        &&& forall|i: int|
            0 <= i < self.config.routes@.len() ==> self.route_table.routes@[i]@
                == self.config.routes@[i].0@
    }

    /// A fresh state around a configuration snapshot: empty route table,
    /// empty registry, empty caches, no buckets. `build_tree` and
    /// `init_server_state` derive the rest.
    pub fn new(config: Config) -> (s: Self)
        ensures
            s.config == config,
            s.route_table.routes@.len() == 0,
            s.registry.servers@.len() == 0,
            s.cache.entries@.len() == 0,
            s.cache.wf(),
            s.cache.capacity == DYNAMIC_CACHE_CAPACITY,
            s.static_cache.entries@.len() == 0,
            s.user_tokens.entries@.len() == 0,
            config.wf() && config.routes@.len() == 0 ==> s.wf(),
    {
        AppState {
            config,
            route_table: RouteTable::new(),
            registry: UpstreamRegistry::new(),
            cache: ResponseCache::new(DYNAMIC_CACHE_CAPACITY),
            static_cache: StaticCache::new(),
            user_tokens: BucketTable::new(),
        }
    }

    /// Rebuild the route table from the current configuration and swap it
    /// in; the old table is simply discarded.
    pub fn build_tree(&mut self)
        ensures
            final(self).config == old(self).config,
            final(self).registry == old(self).registry,
            final(self).cache == old(self).cache,
            final(self).static_cache == old(self).static_cache,
            final(self).user_tokens == old(self).user_tokens,
            final(self).route_table.routes@.len() == old(self).config.routes@.len(),
            forall|i: int|
                0 <= i < old(self).config.routes@.len() ==> final(self).route_table.routes@[i]@
                    == old(self).config.routes@[i].0@,
    {
        self.route_table = crate::routing::build_tree(&self.config);
    }

    /// Rebuild the upstream registry from the current configuration and swap
    /// it in; every upstream starts fresh with an empty pool.
    pub fn init_server_state(&mut self)
        ensures
            final(self).config == old(self).config,
            final(self).route_table == old(self).route_table,
            final(self).cache == old(self).cache,
            final(self).static_cache == old(self).static_cache,
            final(self).user_tokens == old(self).user_tokens,
            final(self).registry.wf(),
            registry_fresh_from_config(final(self).registry.servers@, &old(self).config),
    {
        self.registry = crate::upstream::init_server_state(&self.config);
    }

    /// Hot reload: adopt a new configuration snapshot and rebuild the route
    /// table and the registry from it. Caches and rate-limit state carry
    /// over; pooled connections of the discarded registry are abandoned.
    pub fn reload(&mut self, new_config: Config)
        requires
            old(self).cache.wf(),
            old(self).static_cache.wf(),
            old(self).user_tokens.wf(),
        ensures
            final(self).config == new_config,
            final(self).cache == old(self).cache,
            final(self).static_cache == old(self).static_cache,
            final(self).user_tokens == old(self).user_tokens,
            final(self).registry.wf(),
            registry_fresh_from_config(final(self).registry.servers@, &new_config),
            final(self).route_table.routes@.len() == new_config.routes@.len(),
            forall|i: int|
                0 <= i < new_config.routes@.len() ==> final(self).route_table.routes@[i]@
                    == new_config.routes@[i].0@,
            new_config.wf() ==> final(self).wf(),
    {
        self.config = new_config;
        self.build_tree();
        self.init_server_state();
    }

    /// The rate limiter's verdict for this request, before any debit.
    pub open spec fn spec_allows(self, client: Seq<char>, now_ms: u64) -> bool {
        spec_refill_allows(
            self.user_tokens.entries@,
            client,
            now_ms,
            self.config.rate_limit.max_tokens,
            self.config.rate_limit.refill_rate,
        )
    }

    /// The bucket table right after this request's refill.
    pub open spec fn spec_refilled_buckets(self, client: String, now_ms: u64) -> Seq<
        (String, TokenBucket),
    > {
        spec_refill_table(
            self.user_tokens.entries@,
            client,
            now_ms,
            self.config.rate_limit.max_tokens,
            self.config.rate_limit.refill_rate,
        )
    }

    /// The static cache answers for this path.
    pub open spec fn spec_static_hit(self, path: Seq<char>) -> bool {
        has_key(self.static_cache.entries@, path)
    }

    /// The dynamic cache answers for this key (regardless of method).
    pub open spec fn spec_dynamic_hit(self, key: CacheKeyV) -> bool {
        cache_has_key(self.cache.entries@, key)
    }

    /// Some configured route matches this path.
    pub open spec fn spec_route_match_exists(self, path: Seq<char>) -> bool {
        exists|j: int|
            0 <= j < self.route_table.routes@.len() && route_matches(
                self.route_table.routes@[j]@,
                path,
            )
    }

    /// `ri` is the longest configured route matching `path`.
    pub open spec fn is_longest_match(self, ri: int, path: Seq<char>) -> bool {
        &&& 0 <= ri < self.route_table.routes@.len()
        &&& route_matches(self.route_table.routes@[ri]@, path)
        &&& forall|k: int|
            0 <= k < self.route_table.routes@.len() && route_matches(
                self.route_table.routes@[k]@,
                path,
            ) ==> self.route_table.routes@[k]@.len() <= self.route_table.routes@[ri]@.len()
    }

    /// The upstream at registry index `ui` is a legitimate pick for route
    /// `ri`: one of its endpoints, or the default upstream when the route
    /// lists none.
    pub open spec fn is_picked_upstream(self, ri: int, ui: int) -> bool {
        &&& 0 <= ri < self.config.routes@.len()
        &&& 0 <= ui < self.registry.servers@.len()
        &&& ({
            let eps = self.config.routes@[ri].1.endpoints@;
            if eps.len() == 0 {
                self.registry.servers@[ui].spec_addr() == self.config.default_server@
            } else {
                exists|e: int|
                    0 <= e < eps.len() && eps[e]@ == self.registry.servers@[ui].spec_addr()
            }
        })
    }

    /// One request through the gateway core, in the order it applies its
    /// rules: rate-limit refill and check, static cache, dynamic cache (GET
    /// only), route match, load-balancer pick, token debit, auth gate, pool
    /// borrow. Forwarding itself is the caller's I/O; every decision here is
    /// pinned to the state it was made on.
    pub fn begin_request(&mut self, req: &GatewayRequest, now_ms: u64) -> (r: BeginOutcome)
        requires
            old(self).wf(),
        ensures
            final(self).wf(),
            final(self).config == old(self).config,
            final(self).route_table == old(self).route_table,
            final(self).static_cache == old(self).static_cache,
            final(self).cache == old(self).cache,
            match r {
                BeginOutcome::Denied(e) => match e {
                    GatewayError::RateLimited => {
                        &&& !old(self).spec_allows(req.client@, now_ms)
                        &&& final(self).user_tokens.entries@ == old(self).spec_refilled_buckets(
                            req.client,
                            now_ms,
                        )
                        &&& final(self).registry == old(self).registry
                    },
                    GatewayError::NotFound => {
                        &&& old(self).spec_allows(req.client@, now_ms)
                        &&& !old(self).spec_static_hit(req.path@)
                        &&& !(req.method@ == "GET"@ && old(self).spec_dynamic_hit(
                            req.spec_cache_key(),
                        ))
                        &&& !old(self).spec_route_match_exists(req.path@)
                        &&& final(self).user_tokens.entries@ == old(self).spec_refilled_buckets(
                            req.client,
                            now_ms,
                        )
                        &&& final(self).registry == old(self).registry
                    },
                    GatewayError::Io(_) => {
                        &&& old(self).spec_allows(req.client@, now_ms)
                        &&& !old(self).spec_static_hit(req.path@)
                        &&& !(req.method@ == "GET"@ && old(self).spec_dynamic_hit(
                            req.spec_cache_key(),
                        ))
                        &&& exists|ri: int|
                            #![auto]
                            old(self).is_longest_match(ri, req.path@) && ({
                                let eps = old(self).config.routes@[ri].1.endpoints@;
                                ||| exists|e: int|
                                    0 <= e < eps.len() && !registry_has_addr(
                                        old(self).registry.servers@,
                                        eps[e]@,
                                    )
                                ||| (eps.len() == 0 && !registry_has_addr(
                                    old(self).registry.servers@,
                                    old(self).config.default_server@,
                                ))
                            })
                        &&& final(self).user_tokens.entries@ == old(self).spec_refilled_buckets(
                            req.client,
                            now_ms,
                        )
                        &&& final(self).registry == old(self).registry
                    },
                    GatewayError::Unauthorized => {
                        &&& old(self).spec_allows(req.client@, now_ms)
                        &&& !old(self).spec_static_hit(req.path@)
                        &&& !(req.method@ == "GET"@ && old(self).spec_dynamic_hit(
                            req.spec_cache_key(),
                        ))
                        &&& exists|ri: int, ui: int|
                            #![auto]
                            {
                                &&& old(self).is_longest_match(ri, req.path@)
                                &&& old(self).is_picked_upstream(ri, ui)
                                &&& gate_applies(
                                    old(self).config.auth,
                                    old(self).registry.servers@[ui].req_auth,
                                )
                                &&& final(self).user_tokens.entries@ == spec_debit_table(
                                    old(self).spec_refilled_buckets(req.client, now_ms),
                                    req.client@,
                                    old(self).registry.servers@[ui].token_weight,
                                )
                            }
                        &&& final(self).registry == old(self).registry
                    },
                    GatewayError::Overloaded => {
                        &&& old(self).spec_allows(req.client@, now_ms)
                        &&& !old(self).spec_static_hit(req.path@)
                        &&& !(req.method@ == "GET"@ && old(self).spec_dynamic_hit(
                            req.spec_cache_key(),
                        ))
                        &&& exists|ri: int, ui: int|
                            #![auto]
                            {
                                &&& old(self).is_longest_match(ri, req.path@)
                                &&& old(self).is_picked_upstream(ri, ui)
                                &&& old(self).registry.servers@[ui].pool@.idle.len() == 0
                                &&& old(self).registry.servers@[ui].pool@.total_connections >= old(
                                    self,
                                ).registry.servers@[ui].pool@.max_connections
                                &&& final(self).user_tokens.entries@ == spec_debit_table(
                                    old(self).spec_refilled_buckets(req.client, now_ms),
                                    req.client@,
                                    old(self).registry.servers@[ui].token_weight,
                                )
                            }
                        &&& crate::upstream::same_registry_state(
                            final(self).registry.servers@,
                            old(self).registry.servers@,
                        )
                    },
                    GatewayError::ConnectionFailed(_) => false,
                },
                BeginOutcome::Reply(resp) => {
                    &&& old(self).spec_allows(req.client@, now_ms)
                    &&& final(self).user_tokens.entries@ == old(self).spec_refilled_buckets(
                        req.client,
                        now_ms,
                    )
                    &&& final(self).registry == old(self).registry
                    &&& ({
                        let sc = old(self).static_cache.entries@;
                        if has_key(sc, req.path@) {
                            resp@ == sc[index_of_key(sc, req.path@)].1@
                        } else {
                            &&& req.method@ == "GET"@
                            &&& cache_has_key(old(self).cache.entries@, req.spec_cache_key())
                            &&& resp@ == old(self).cache.entries@[cache_index_of(
                                old(self).cache.entries@,
                                req.spec_cache_key(),
                            )].1@
                        }
                    })
                },
                BeginOutcome::Forward(plan) => {
                    &&& old(self).spec_allows(req.client@, now_ms)
                    &&& !old(self).spec_static_hit(req.path@)
                    &&& !(req.method@ == "GET"@ && old(self).spec_dynamic_hit(
                        req.spec_cache_key(),
                    ))
                    &&& plan.store_cache == (req.method@ == "GET"@)
                    &&& plan.cache_key@ == req.spec_cache_key()
                    &&& old(self).is_longest_match(plan.route_index as int, req.path@)
                    &&& old(self).is_picked_upstream(plan.route_index as int, plan.upstream as int)
                    &&& final(self).user_tokens.entries@ == spec_debit_table(
                        old(self).spec_refilled_buckets(req.client, now_ms),
                        req.client@,
                        old(self).registry.servers@[plan.upstream as int].token_weight,
                    )
                    &&& (gate_applies(
                        old(self).config.auth,
                        old(self).registry.servers@[plan.upstream as int].req_auth,
                    ) ==> (req.authorization matches Some(h) && is_prefix_of("Bearer "@, h@)))
                    &&& final(self).registry.servers@.len() == old(self).registry.servers@.len()
                    &&& forall|j: int|
                        0 <= j < old(self).registry.servers@.len() && j != plan.upstream as int
                            ==> final(self).registry.servers@[j] == old(self).registry.servers@[j]
                    &&& final(self).registry.servers@[plan.upstream as int].active_connections
                        == old(self).registry.servers@[plan.upstream as int].active_connections
                    &&& match plan.conn {
                        ConnPlan::Reuse(c) => {
                            &&& (
                                BorrowOutcome::Reused(c.spec_id()),
                                final(self).registry.servers@[plan.upstream as int].pool@,
                            ) == spec_borrow(
                                old(self).registry.servers@[plan.upstream as int].pool@,
                            )
                            &&& c.spec_protocol() == old(self).registry.servers@[
                                plan.upstream as int
                            ].pool.protocol
                        },
                        ConnPlan::Open => {
                            &&& final(self).registry.servers@[plan.upstream as int].pool@ == old(
                                self,
                            ).registry.servers@[plan.upstream as int].pool@
                            &&& spec_borrow(
                                old(self).registry.servers@[plan.upstream as int].pool@,
                            ).0 is MustOpen
                        },
                    }
                },
            },
    {
        let max_tokens = self.config.rate_limit.max_tokens;
        let refill_rate = self.config.rate_limit.refill_rate;
        let allowed = self.user_tokens.refill_and_check(
            &req.client,
            now_ms,
            max_tokens,
            refill_rate,
        );
        if !allowed {
            return BeginOutcome::Denied(GatewayError::RateLimited);
        }
        let ck = req.cache_key();
        match self.static_cache.get(&req.path) {
            Some(resp) => {
                return BeginOutcome::Reply(resp);
            },
            None => {},
        }
        let is_get = str_eq(req.method.as_str(), "GET");
        if is_get {
            match self.cache.get(&ck) {
                Some(resp) => {
                    return BeginOutcome::Reply(resp);
                },
                None => {},
            }
        }
        let ri = match self.route_table.match_path(req.path.as_str()) {
            Some(i) => i,
            None => {
                return BeginOutcome::Denied(GatewayError::NotFound);
            },
        };
        let rc: &crate::config::RouteConfig = &self.config.routes[ri].1;
        let addr = match crate::balancer::p2c_pick(
            &rc.endpoints,
            &self.registry,
            &self.config.default_server,
        ) {
            Ok(a) => a,
            Err(e) => {
                proof {
                    assert(old(self).is_longest_match(ri as int, req.path@));
                    let w = choose|w: int|
                        0 <= w < rc.endpoints@.len() && !registry_has_addr(
                            self.registry.servers@,
                            rc.endpoints@[w]@,
                        );
                    assert(!registry_has_addr(
                        old(self).registry.servers@,
                        old(self).config.routes@[ri as int].1.endpoints@[w]@,
                    ));
                }
                return BeginOutcome::Denied(e);
            },
        };
        let ui = match self.registry.find_server(&addr) {
            Some(u) => u,
            None => {
                proof {
                    assert(old(self).is_longest_match(ri as int, req.path@));
                    if rc.endpoints@.len() == 0 {
                        assert(!registry_has_addr(
                            old(self).registry.servers@,
                            old(self).config.default_server@,
                        ));
                    } else {
                        assert(registry_has_addr(self.registry.servers@, addr@));
                        assert(false);
                    }
                }
                return BeginOutcome::Denied(
                    GatewayError::Io(String::from_str("upstream registry desync")),
                );
            },
        };
        proof {
            assert(old(self).is_longest_match(ri as int, req.path@));
            assert(old(self).is_picked_upstream(ri as int, ui as int));
        }
        let weight = self.registry.servers[ui].token_weight;
        self.user_tokens.debit_client(&req.client, weight);
        let req_auth = self.registry.servers[ui].req_auth;
        match check_auth(&self.config.auth, req_auth, &req.authorization) {
            Ok(_) => {},
            Err(e) => {
                return BeginOutcome::Denied(e);
            },
        }
        let conn = match self.registry.borrow_from(ui) {
            BorrowOutcome::Reused(id) => ConnPlan::Reuse(
                self.registry.servers[ui].pool.make_connection(id),
            ),
            BorrowOutcome::MustOpen => ConnPlan::Open,
            BorrowOutcome::Overloaded => {
                return BeginOutcome::Denied(GatewayError::Overloaded);
            },
        };
        BeginOutcome::Forward(
            ForwardPlan { route_index: ri, upstream: ui, conn, cache_key: ck, store_cache: is_get },
        )
    }

    /// The forwarding layer opened the fresh transport a `ForwardPlan` with
    /// `ConnPlan::Open` asked for: count it, once, in the pool and in the
    /// live load.
    pub fn register_opened(&mut self, upstream: usize)
        requires
            old(self).wf(),
            upstream < old(self).registry.servers@.len(),
            old(self).registry.servers@[upstream as int].pool@.idle.len() + old(
                self,
            ).registry.servers@[upstream as int].pool@.total_connections < old(
                self,
            ).registry.servers@[upstream as int].pool@.max_connections,
            old(self).registry.servers@[upstream as int].active_connections < usize::MAX,
        ensures
            final(self).wf(),
            final(self).config == old(self).config,
            final(self).route_table == old(self).route_table,
            final(self).static_cache == old(self).static_cache,
            final(self).cache == old(self).cache,
            final(self).user_tokens == old(self).user_tokens,
            final(self).registry.servers@.len() == old(self).registry.servers@.len(),
            forall|j: int|
                0 <= j < old(self).registry.servers@.len() && j != upstream as int ==> final(self).registry.servers@[j] == old(self).registry.servers@[j],
            ({
                let so = old(self).registry.servers@[upstream as int];
                let su = final(self).registry.servers@[upstream as int];
                &&& su.pool@ == (crate::pool::PoolModel {
                    total_connections: so.pool@.total_connections + 1,
                    ..so.pool@
                })
                &&& su.active_connections == so.active_connections + 1
                &&& su.pool.server_addr == so.pool.server_addr
                &&& su.pool.protocol == so.pool.protocol
                &&& su.req_auth == so.req_auth
                &&& su.token_weight == so.token_weight
            }),
    {
        self.registry.register_opened_at(upstream);
    }

    /// The connection value under which the forwarding layer hands a freshly
    /// opened transport back, tagged with the upstream pool's protocol.
    pub fn connection_for(&self, upstream: usize, id: u64) -> (c: PooledConnection)
        requires
            upstream < self.registry.servers@.len(),
        ensures
            c.spec_id() == id,
            c.spec_protocol() == self.registry.servers@[upstream as int].pool.protocol,
    {
        self.registry.servers[upstream].pool.make_connection(id)
    }

    /// Settle one forwarded request: on success decide reusability from the
    /// response's `Connection` header, release the connection exactly once,
    /// and memoize GET responses; on a send failure un-count the dead
    /// connection from the live load, discard it (also exactly once), and
    /// surface `ConnectionFailed`.
    pub fn finish_request(
        &mut self,
        upstream: usize,
        conn: PooledConnection,
        store_cache: bool,
        cache_key: CacheKey,
        outcome: ForwardOutcome,
    ) -> (r: Result<CachedResponse, GatewayError>)
        requires
            old(self).wf(),
            upstream < old(self).registry.servers@.len(),
            old(self).registry.servers@[upstream as int].pool@.total_connections >= 1,
        ensures
            final(self).wf(),
            final(self).config == old(self).config,
            final(self).route_table == old(self).route_table,
            final(self).static_cache == old(self).static_cache,
            final(self).user_tokens == old(self).user_tokens,
            final(self).cache.capacity == old(self).cache.capacity,
            final(self).registry.servers@.len() == old(self).registry.servers@.len(),
            forall|j: int|
                0 <= j < old(self).registry.servers@.len() && j != upstream as int ==> final(self).registry.servers@[j] == old(self).registry.servers@[j],
            ({
                let so = old(self).registry.servers@[upstream as int];
                let su = final(self).registry.servers@[upstream as int];
                &&& su.pool.server_addr == so.pool.server_addr
                &&& su.pool.protocol == so.pool.protocol
                &&& su.req_auth == so.req_auth
                &&& su.token_weight == so.token_weight
                &&& match outcome {
                    ForwardOutcome::Success(resp) => {
                        &&& (r matches Ok(out) && out@ == resp@)
                        &&& su.pool@ == spec_release(so.pool@, conn.spec_id(), spec_reusable(resp@))
                        &&& su.active_connections == so.active_connections
                        &&& final(self).cache.entries@ == if store_cache {
                            spec_cache_insert(
                                old(self).cache.entries@,
                                old(self).cache.capacity as nat,
                                cache_key,
                                resp,
                            )
                        } else {
                            old(self).cache.entries@
                        }
                    },
                    ForwardOutcome::SendFailed => {
                        &&& (r matches Err(e) && e matches GatewayError::ConnectionFailed(d)
                            && d@ == "Failed to Send Request"@)
                        &&& su.pool@ == spec_release(so.pool@, conn.spec_id(), false)
                        &&& su.active_connections == if so.active_connections > 0 {
                            (so.active_connections - 1) as usize
                        } else {
                            0
                        }
                        &&& final(self).cache.entries@ == old(self).cache.entries@
                    },
                }
            }),
    {
        match outcome {
            ForwardOutcome::Success(resp) => {
                let reusable = response_reusable(&resp);
                self.registry.release_to(upstream, conn, reusable);
                let out = resp.clone();
                if store_cache {
                    self.cache.insert(cache_key, resp);
                }
                Ok(out)
            },
            ForwardOutcome::SendFailed => {
                self.registry.note_send_failure(upstream);
                self.registry.release_to(upstream, conn, false);
                Err(GatewayError::ConnectionFailed(String::from_str("Failed to Send Request")))
            },
        }
    }
}

/// The path `p` belongs to a route flagged static.
pub open spec fn is_static_path(config: &Config, p: Seq<char>) -> bool {
    exists|j: int|
        0 <= j < config.routes@.len() && (#[trigger] config.routes@[j]).0@ == p
            && config.routes@[j].1.is_static
}

/// Some element of `v` reads `p`.
pub open spec fn contains_str(v: Seq<String>, p: Seq<char>) -> bool {
    exists|i: int| 0 <= i < v.len() && (#[trigger] v[i])@ == p
}

/// The paths of the routes flagged static, in configuration order: the set
/// the static cache is populated from on startup and reload.
pub fn static_paths(config: &Config) -> (r: Vec<String>)
    ensures
        forall|i: int| 0 <= i < r@.len() ==> is_static_path(config, (#[trigger] r@[i])@),
        forall|j: int|
            0 <= j < config.routes@.len() && (#[trigger] config.routes@[j]).1.is_static
                ==> contains_str(r@, config.routes@[j].0@),
{
    let n = config.routes.len();
    let mut r: Vec<String> = Vec::new();
    let mut j: usize = 0;
    while j < n
        invariant
            j <= n,
            n == config.routes@.len(),
            forall|i: int| 0 <= i < r@.len() ==> is_static_path(config, (#[trigger] r@[i])@),
            forall|k: int|
                0 <= k < j && (#[trigger] config.routes@[k]).1.is_static ==> contains_str(
                    r@,
                    config.routes@[k].0@,
                ),
        decreases n - j,
    {
        let e: &(String, crate::config::RouteConfig) = &config.routes[j];
        if e.1.is_static {
            let ghost pre = r@;
            r.push(e.0.clone());
            proof {
                let rl = r@.len() - 1;
                assert(r@[rl]@ == config.routes@[j as int].0@);
                assert(is_static_path(config, r@[rl]@));
                assert(contains_str(r@, config.routes@[j as int].0@));
                assert forall|i: int| 0 <= i < r@.len() implies is_static_path(
                    config,
                    (#[trigger] r@[i])@,
                ) by {
                    if i < rl {
                        assert(pre[i] == r@[i]);
                        assert(is_static_path(config, pre[i]@));
                    }
                }
                assert forall|k: int|
                    0 <= k < j + 1 && (#[trigger] config.routes@[k]).1.is_static implies contains_str(
                    r@,
                    config.routes@[k].0@,
                ) by {
                    if k < j as int {
                        let i = choose|i: int|
                            0 <= i < pre.len() && (#[trigger] pre[i])@ == config.routes@[k].0@;
                        assert(r@[i]@ == config.routes@[k].0@);
                    }
                }
            }
        }
        j = j + 1;
    }
    r
}

} // verus!
