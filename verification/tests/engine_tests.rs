use certus_gateway::cache::CachedResponse;
use certus_gateway::config::{Config, RouteConfig};
use certus_gateway::engine::{
    first_header, response_reusable, static_paths, AppState, BeginOutcome, ConnPlan,
    ForwardOutcome, GatewayRequest,
};
use certus_gateway::errors::GatewayError;

fn service_config(path: &str, endpoints: &[&str], token_weight: u64) -> Config {
    let mut cfg = Config::default();
    cfg.routes.push((
        String::from(path),
        RouteConfig {
            endpoints: endpoints.iter().map(|e| String::from(*e)).collect(),
            auth: None,
            is_static: false,
            needs_auth: false,
            token_weight,
        },
    ));
    cfg
}

fn state_for(cfg: Config) -> AppState {
    let mut st = AppState::new(cfg);
    st.build_tree();
    st.init_server_state();
    st
}

fn get_request(path: &str) -> GatewayRequest {
    GatewayRequest {
        method: String::from("GET"),
        path: String::from(path),
        client: String::from("10.0.0.1"),
        authorization: None,
    }
}

fn ok_response(body: &[u8]) -> CachedResponse {
    CachedResponse { status: 200, headers: Vec::new(), body: body.to_vec() }
}

/// Drive one admitted request to completion, opening a transport when the
/// plan asks for one, exactly as the I/O layer would.
fn run_to_response(
    st: &mut AppState,
    req: &GatewayRequest,
    now_ms: u64,
    outcome: ForwardOutcome,
) -> Result<CachedResponse, GatewayError> {
    match st.begin_request(req, now_ms) {
        BeginOutcome::Reply(resp) => Ok(resp),
        BeginOutcome::Denied(e) => Err(e),
        BeginOutcome::Forward(plan) => {
            let conn = match plan.conn {
                ConnPlan::Reuse(c) => c,
                ConnPlan::Open => {
                    st.register_opened(plan.upstream);
                    st.connection_for(plan.upstream, 1)
                },
            };
            st.finish_request(plan.upstream, conn, plan.store_cache, plan.cache_key, outcome)
        },
    }
}

#[test]
fn end_to_end_get_is_cached_and_served_without_upstream() {
    let cfg = service_config("/svc", &["127.0.0.1:7001", "127.0.0.1:7002"], 0);
    let mut st = state_for(cfg);
    let req = get_request("/svc");

    let first = run_to_response(&mut st, &req, 0, ForwardOutcome::Success(ok_response(b"hi")));
    assert_eq!(first.unwrap().body, b"hi".to_vec());

    // The forwarded connection went back to some pool; remember the state.
    let totals_before: Vec<usize> =
        st.registry.servers.iter().map(|s| s.pool.total_connections).collect();

    // The second identical GET must come from the cache: a Reply, not a
    // Forward, with the memoized body and untouched pools.
    match st.begin_request(&req, 0) {
        BeginOutcome::Reply(resp) => {
            assert_eq!(resp.status, 200);
            assert_eq!(resp.body, b"hi".to_vec());
        },
        other => panic!("expected a cached reply, got {:?}", other),
    }
    let totals_after: Vec<usize> =
        st.registry.servers.iter().map(|s| s.pool.total_connections).collect();
    assert_eq!(totals_before, totals_after);
}

#[test]
fn post_is_neither_served_from_nor_stored_into_the_cache() {
    let cfg = service_config("/svc", &["127.0.0.1:7001"], 0);
    let mut st = state_for(cfg);
    let mut req = get_request("/svc");
    req.method = String::from("POST");

    let first = run_to_response(&mut st, &req, 0, ForwardOutcome::Success(ok_response(b"one")));
    assert_eq!(first.unwrap().body, b"one".to_vec());
    assert_eq!(st.cache.entries.len(), 0);

    // The second POST forwards again instead of replying from the cache.
    match st.begin_request(&req, 0) {
        BeginOutcome::Forward(_) => {},
        other => panic!("expected a forward, got {:?}", other),
    }
}

#[test]
fn unmatched_path_is_not_found() {
    let cfg = service_config("/svc", &["127.0.0.1:7001"], 0);
    let mut st = state_for(cfg);
    let req = get_request("/elsewhere");
    match st.begin_request(&req, 0) {
        BeginOutcome::Denied(GatewayError::NotFound) => {},
        other => panic!("expected NotFound, got {:?}", other),
    }
}

#[test]
fn eleventh_request_is_rate_limited_and_refill_restores_budget() {
    let mut cfg = service_config("/svc", &["127.0.0.1:7001"], 1_000);
    cfg.rate_limit.max_tokens = 10_000;
    cfg.rate_limit.refill_rate = 1_000;
    let mut st = state_for(cfg);
    let mut req = get_request("/svc");
    req.method = String::from("POST"); // keep the cache out of the way

    for _ in 0..10 {
        let r = run_to_response(&mut st, &req, 0, ForwardOutcome::Success(ok_response(b"ok")));
        assert!(r.is_ok());
    }
    match st.begin_request(&req, 0) {
        BeginOutcome::Denied(GatewayError::RateLimited) => {},
        other => panic!("expected RateLimited, got {:?}", other),
    }
    // Five simulated seconds refill five tokens; the request goes through
    // and its weight of one token is debited afterwards.
    match st.begin_request(&req, 5_000) {
        BeginOutcome::Forward(plan) => {
            let b = st.user_tokens.lookup(&req.client).unwrap();
            assert_eq!(b.tokens, 4_000);
            // Settle the borrow so the pool stays consistent.
            let conn = match plan.conn {
                ConnPlan::Reuse(c) => c,
                ConnPlan::Open => {
                    st.register_opened(plan.upstream);
                    st.connection_for(plan.upstream, 1)
                },
            };
            let _ = st.finish_request(
                plan.upstream,
                conn,
                plan.store_cache,
                plan.cache_key,
                ForwardOutcome::Success(ok_response(b"ok")),
            );
        },
        other => panic!("expected a forward, got {:?}", other),
    }
}

#[test]
fn send_failure_surfaces_connection_failed() {
    let cfg = service_config("/svc", &["127.0.0.1:7001"], 0);
    let mut st = state_for(cfg);
    let req = get_request("/svc");
    let r = run_to_response(&mut st, &req, 0, ForwardOutcome::SendFailed);
    match r {
        Err(GatewayError::ConnectionFailed(d)) => assert_eq!(d, String::from("Failed to Send Request")),
        other => panic!("expected ConnectionFailed, got {:?}", other),
    }
    // The dead connection was not pooled and the live count self-corrected.
    assert_eq!(st.registry.servers[0].pool.total_connections, 0);
    assert_eq!(st.registry.servers[0].active_connections, 0);
    assert_eq!(st.cache.entries.len(), 0);
}

#[test]
fn second_borrow_at_capacity_is_overloaded() {
    let cfg = service_config("/svc", &["127.0.0.1:7001"], 0);
    let mut st = state_for(cfg);
    // Fill the pool to its capacity of 100 without releasing.
    for i in 0..100 {
        match st.begin_request(&get_request("/svc"), 0) {
            BeginOutcome::Forward(plan) => {
                assert!(matches!(plan.conn, ConnPlan::Open));
                st.register_opened(plan.upstream);
                let _unfinished_connection_id = i;
            },
            other => panic!("expected a forward, got {:?}", other),
        }
    }
    match st.begin_request(&get_request("/svc"), 0) {
        BeginOutcome::Denied(GatewayError::Overloaded) => {},
        other => panic!("expected Overloaded, got {:?}", other),
    }
}

#[test]
fn auth_gated_route_refuses_missing_header_end_to_end() {
    let mut cfg = service_config("/secure", &["127.0.0.1:7001"], 0);
    cfg.routes[0].1.needs_auth = true;
    cfg.auth = Some(certus_gateway::config::AuthConfig {
        method: certus_gateway::config::AuthType::JWT {
            secret: String::from("s3cr3t"),
            expiration: 0,
        },
        exclude: Vec::new(),
    });
    let mut st = state_for(cfg);
    let req = get_request("/secure");
    match st.begin_request(&req, 0) {
        BeginOutcome::Denied(GatewayError::Unauthorized) => {},
        other => panic!("expected Unauthorized, got {:?}", other),
    }
}

#[test]
fn static_cache_answers_before_everything_else() {
    let cfg = service_config("/svc", &["127.0.0.1:7001"], 0);
    let mut st = state_for(cfg);
    let path = String::from("/svc/page");
    st.static_cache.store_success(
        &path,
        CachedResponse { status: 200, headers: Vec::new(), body: b"static".to_vec() },
    );
    // Even a POST is answered from the static cache, and no pool is touched.
    let mut req = get_request("/svc/page");
    req.method = String::from("POST");
    match st.begin_request(&req, 0) {
        BeginOutcome::Reply(resp) => assert_eq!(resp.body, b"static".to_vec()),
        other => panic!("expected the static reply, got {:?}", other),
    }
    assert_eq!(st.registry.servers[0].pool.total_connections, 0);
}

#[test]
fn static_paths_lists_exactly_the_static_routes() {
    let mut cfg = service_config("/svc", &["127.0.0.1:7001"], 0);
    cfg.routes.push((
        String::from("/assets"),
        RouteConfig {
            endpoints: vec![String::from("127.0.0.1:7002")],
            auth: None,
            is_static: true,
            needs_auth: false,
            token_weight: 0,
        },
    ));
    let paths = static_paths(&cfg);
    assert_eq!(paths, vec![String::from("/assets")]);
}

#[test]
fn reload_swaps_routes_and_registry_but_keeps_caches() {
    let cfg = service_config("/svc", &["127.0.0.1:7001"], 0);
    let mut st = state_for(cfg);
    let req = get_request("/svc");
    let r = run_to_response(&mut st, &req, 0, ForwardOutcome::Success(ok_response(b"kept")));
    assert!(r.is_ok());
    assert_eq!(st.cache.entries.len(), 1);

    let new_cfg = service_config("/v2", &["127.0.0.1:9001"], 0);
    st.reload(new_cfg);
    assert_eq!(st.route_table.routes, vec![String::from("/v2")]);
    assert_eq!(st.registry.servers.len(), 1);
    // Fresh registry: the new upstream has an empty pool.
    assert_eq!(st.registry.servers[0].pool.total_connections, 0);
    // The response cache carried over.
    assert_eq!(st.cache.entries.len(), 1);
    match st.begin_request(&get_request("/svc"), 0) {
        BeginOutcome::Reply(resp) => assert_eq!(resp.body, b"kept".to_vec()),
        other => panic!("expected the cached reply to survive reload, got {:?}", other),
    }
}

#[test]
fn reused_connection_is_the_released_one() {
    let cfg = service_config("/svc", &["127.0.0.1:7001"], 0);
    let mut st = state_for(cfg);
    let mut req = get_request("/svc");
    req.method = String::from("POST");
    // First request opens; we register it under handle 77 and release it
    // reusable (no Connection: close header).
    match st.begin_request(&req, 0) {
        BeginOutcome::Forward(plan) => {
            assert!(matches!(plan.conn, ConnPlan::Open));
            st.register_opened(plan.upstream);
            let conn = st.connection_for(plan.upstream, 77);
            let r = st.finish_request(
                plan.upstream,
                conn,
                plan.store_cache,
                plan.cache_key,
                ForwardOutcome::Success(ok_response(b"a")),
            );
            assert!(r.is_ok());
        },
        other => panic!("expected a forward, got {:?}", other),
    }
    // The second request reuses exactly handle 77.
    match st.begin_request(&req, 0) {
        BeginOutcome::Forward(plan) => match plan.conn {
            ConnPlan::Reuse(c) => assert_eq!(c.id(), 77),
            other => panic!("expected reuse, got {:?}", other),
        },
        other => panic!("expected a forward, got {:?}", other),
    }
}

#[test]
fn connection_close_header_prevents_reuse() {
    let cfg = service_config("/svc", &["127.0.0.1:7001"], 0);
    let mut st = state_for(cfg);
    let mut req = get_request("/svc");
    req.method = String::from("POST");
    match st.begin_request(&req, 0) {
        BeginOutcome::Forward(plan) => {
            st.register_opened(plan.upstream);
            let conn = st.connection_for(plan.upstream, 5);
            let closing = CachedResponse {
                status: 200,
                headers: vec![(String::from("connection"), String::from("close"))],
                body: Vec::new(),
            };
            let r = st.finish_request(
                plan.upstream,
                conn,
                plan.store_cache,
                plan.cache_key,
                ForwardOutcome::Success(closing),
            );
            assert!(r.is_ok());
        },
        other => panic!("expected a forward, got {:?}", other),
    }
    // Nothing idles in the pool, so the next borrow must open anew.
    match st.begin_request(&req, 0) {
        BeginOutcome::Forward(plan) => assert!(matches!(plan.conn, ConnPlan::Open)),
        other => panic!("expected a forward, got {:?}", other),
    }
}

#[test]
fn first_header_finds_first_occurrence() {
    let headers = vec![
        (String::from("x-a"), String::from("1")),
        (String::from("connection"), String::from("keep-alive")),
        (String::from("connection"), String::from("close")),
    ];
    assert_eq!(first_header(&headers, "connection"), Some(String::from("keep-alive")));
    assert_eq!(first_header(&headers, "x-b"), None);
}

#[test]
fn reusability_follows_the_connection_header() {
    let keep = CachedResponse {
        status: 200,
        headers: vec![(String::from("connection"), String::from("keep-alive"))],
        body: Vec::new(),
    };
    let close = CachedResponse {
        status: 200,
        headers: vec![(String::from("connection"), String::from("close"))],
        body: Vec::new(),
    };
    let bare = CachedResponse { status: 200, headers: Vec::new(), body: Vec::new() };
    assert!(response_reusable(&keep));
    assert!(!response_reusable(&close));
    assert!(response_reusable(&bare));
}

#[test]
fn error_statuses_match_the_taxonomy() {
    assert_eq!(GatewayError::Overloaded.status_code(), 503);
    assert_eq!(GatewayError::ConnectionFailed(String::from("x")).status_code(), 502);
    assert_eq!(GatewayError::NotFound.status_code(), 404);
    assert_eq!(GatewayError::Io(String::from("x")).status_code(), 500);
    assert_eq!(GatewayError::Unauthorized.status_code(), 401);
    assert_eq!(GatewayError::RateLimited.status_code(), 429);
}

#[test]
fn error_messages_are_exact() {
    assert_eq!(GatewayError::Overloaded.message(), String::from("Upstream overloaded"));
    assert_eq!(
        GatewayError::ConnectionFailed(String::from("boom")).message(),
        String::from("Failed to connect to upstream: boom")
    );
    assert_eq!(GatewayError::NotFound.message(), String::from("No route found"));
    assert_eq!(GatewayError::Io(String::from("hidden")).message(), String::from("Internal Server Error"));
    assert_eq!(GatewayError::Unauthorized.message(), String::from("Unauthorized"));
    assert_eq!(GatewayError::RateLimited.message(), String::from("Rate Limited"));
}

#[test]
fn default_port_is_8080() {
    assert_eq!(certus_gateway::config::default_port(), 8080);
}
