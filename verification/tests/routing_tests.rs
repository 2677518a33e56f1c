use certus_gateway::config::{Config, RouteConfig};
use certus_gateway::routing::{build_tree, get_longest_macthing_route, path_matches_route, RouteTable};

fn route(path: &str) -> (String, RouteConfig) {
    (
        String::from(path),
        RouteConfig {
            endpoints: Vec::new(),
            auth: None,
            is_static: false,
            needs_auth: false,
            token_weight: 0,
        },
    )
}

fn table(paths: &[&str]) -> RouteTable {
    let mut cfg = Config::default();
    for p in paths {
        cfg.routes.push(route(p));
    }
    build_tree(&cfg)
}

#[test]
fn longest_match_prefers_deeper_route() {
    let t = table(&["/", "/api"]);
    assert_eq!(
        get_longest_macthing_route(&t, "/api/v1/x"),
        Some(String::from("/api"))
    );
    assert_eq!(get_longest_macthing_route(&t, "/other"), Some(String::from("/")));
}

#[test]
fn exact_route_matches_itself() {
    let t = table(&["/", "/api"]);
    assert_eq!(get_longest_macthing_route(&t, "/api"), Some(String::from("/api")));
    assert_eq!(get_longest_macthing_route(&t, "/"), Some(String::from("/")));
}

#[test]
fn unmatched_path_yields_none() {
    let t = table(&["/api"]);
    assert_eq!(get_longest_macthing_route(&t, "/other"), None);
    assert_eq!(get_longest_macthing_route(&t, "api"), None);
}

#[test]
fn nested_routes_pick_most_specific() {
    let t = table(&["/api", "/api/v1"]);
    assert_eq!(
        get_longest_macthing_route(&t, "/api/v1/users"),
        Some(String::from("/api/v1"))
    );
    assert_eq!(
        get_longest_macthing_route(&t, "/api/v2/users"),
        Some(String::from("/api"))
    );
}

#[test]
fn route_extension_needs_separator() {
    assert!(path_matches_route("/api", "/api/x"));
    assert!(path_matches_route("/api", "/api"));
    assert!(!path_matches_route("/api", "/apix"));
    assert!(!path_matches_route("/api", "/ap"));
}

#[test]
fn root_route_catches_all_absolute_paths() {
    assert!(path_matches_route("/", "/"));
    assert!(path_matches_route("/", "/anything/below"));
    assert!(!path_matches_route("/", "relative"));
}

#[test]
fn build_tree_keeps_configuration_order() {
    let t = table(&["/a", "/b", "/c"]);
    assert_eq!(t.routes, vec![String::from("/a"), String::from("/b"), String::from("/c")]);
}

#[test]
fn match_path_returns_index_of_longest() {
    let t = table(&["/", "/api"]);
    assert_eq!(t.match_path("/api/v1"), Some(1));
    assert_eq!(t.match_path("/zzz"), Some(0));
    let empty = table(&[]);
    assert_eq!(empty.match_path("/api"), None);
}
