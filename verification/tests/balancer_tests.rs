use certus_gateway::balancer::{p2c_pick, pick_less_loaded};
use certus_gateway::config::{Config, RouteConfig};
use certus_gateway::errors::GatewayError;
use certus_gateway::upstream::{init_server_state, UpstreamRegistry};

fn config_with_endpoints(eps: &[&str]) -> Config {
    let mut cfg = Config::default();
    cfg.routes.push((
        String::from("/svc"),
        RouteConfig {
            endpoints: eps.iter().map(|e| String::from(*e)).collect(),
            auth: None,
            is_static: false,
            needs_auth: false,
            token_weight: 0,
        },
    ));
    cfg
}

#[test]
fn less_loaded_candidate_wins() {
    // Upstream A carries 2 live connections, B carries 5: A must win.
    assert_eq!(pick_less_loaded(0, 2, 1, 5), 0);
    assert_eq!(pick_less_loaded(1, 5, 0, 2), 0);
}

#[test]
fn tie_goes_to_second_draw() {
    assert_eq!(pick_less_loaded(0, 3, 1, 3), 1);
    assert_eq!(pick_less_loaded(1, 0, 0, 0), 0);
}

#[test]
fn empty_endpoint_list_falls_back_to_default() {
    let cfg = config_with_endpoints(&[]);
    let reg = init_server_state(&cfg);
    let picked = p2c_pick(
        &cfg.routes[0].1.endpoints,
        &reg,
        &cfg.default_server,
    );
    assert_eq!(picked.unwrap(), String::from("127.0.0.1:80"));
}

#[test]
fn pick_returns_a_listed_endpoint() {
    let cfg = config_with_endpoints(&["127.0.0.1:7001", "127.0.0.1:7002"]);
    let reg = init_server_state(&cfg);
    for _ in 0..50 {
        let picked = p2c_pick(&cfg.routes[0].1.endpoints, &reg, &cfg.default_server).unwrap();
        assert!(
            picked == String::from("127.0.0.1:7001") || picked == String::from("127.0.0.1:7002")
        );
    }
}

#[test]
fn pick_on_unregistered_endpoint_is_internal_error() {
    let cfg = config_with_endpoints(&["127.0.0.1:7001"]);
    let reg = UpstreamRegistry::new();
    let picked = p2c_pick(&cfg.routes[0].1.endpoints, &reg, &cfg.default_server);
    assert!(matches!(picked, Err(GatewayError::Io(_))));
}

#[test]
fn equal_loads_split_roughly_evenly() {
    // With equal active-connection counts every pick is a tie resolved by the
    // second uniform draw, so each upstream should win about half the time.
    let cfg = config_with_endpoints(&["127.0.0.1:7001", "127.0.0.1:7002"]);
    let reg = init_server_state(&cfg);
    let n = 4000;
    let mut first = 0usize;
    for _ in 0..n {
        let picked = p2c_pick(&cfg.routes[0].1.endpoints, &reg, &cfg.default_server).unwrap();
        if picked == String::from("127.0.0.1:7001") {
            first += 1;
        }
    }
    let share = first as f64 / n as f64;
    assert!(share > 0.40 && share < 0.60, "share was {}", share);
}
