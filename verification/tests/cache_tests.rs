use certus_gateway::cache::{CacheKey, CachedResponse, ResponseCache, StaticCache};

fn key(method: &str, path: &str) -> CacheKey {
    CacheKey {
        method: String::from(method),
        path: String::from(path),
        user_id: None,
        user_role: None,
    }
}

fn resp(status: u16, body: &[u8]) -> CachedResponse {
    CachedResponse { status, headers: Vec::new(), body: body.to_vec() }
}

#[test]
fn cache_returns_stored_response_verbatim() {
    let mut c = ResponseCache::new(4);
    c.insert(key("GET", "/a"), resp(200, b"hello"));
    let got = c.get(&key("GET", "/a")).unwrap();
    assert_eq!(got.status, 200);
    assert_eq!(got.body, b"hello".to_vec());
}

#[test]
fn cache_miss_on_different_method() {
    let mut c = ResponseCache::new(4);
    c.insert(key("GET", "/a"), resp(200, b"hello"));
    assert!(c.get(&key("POST", "/a")).is_none());
    assert!(c.get(&key("GET", "/b")).is_none());
}

#[test]
fn cache_distinguishes_user_identity() {
    let mut c = ResponseCache::new(4);
    let mut k = key("GET", "/a");
    k.user_id = Some(7);
    c.insert(k, resp(200, b"seven"));
    assert!(c.get(&key("GET", "/a")).is_none());
    let mut probe = key("GET", "/a");
    probe.user_id = Some(7);
    assert_eq!(c.get(&probe).unwrap().body, b"seven".to_vec());
}

#[test]
fn insert_replaces_existing_entry() {
    let mut c = ResponseCache::new(2);
    c.insert(key("GET", "/a"), resp(200, b"old"));
    c.insert(key("GET", "/a"), resp(200, b"new"));
    assert_eq!(c.entries.len(), 1);
    assert_eq!(c.get(&key("GET", "/a")).unwrap().body, b"new".to_vec());
}

#[test]
fn full_cache_evicts_oldest_entry() {
    let mut c = ResponseCache::new(2);
    c.insert(key("GET", "/a"), resp(200, b"a"));
    c.insert(key("GET", "/b"), resp(200, b"b"));
    c.insert(key("GET", "/c"), resp(200, b"c"));
    assert_eq!(c.entries.len(), 2);
    assert!(c.get(&key("GET", "/a")).is_none());
    assert_eq!(c.get(&key("GET", "/b")).unwrap().body, b"b".to_vec());
    assert_eq!(c.get(&key("GET", "/c")).unwrap().body, b"c".to_vec());
}

#[test]
fn static_cache_stores_only_success() {
    let mut s = StaticCache::new();
    let path = String::from("/static");
    s.store_success(&path, resp(404, b"missing"));
    assert!(s.get(&path).is_none());
    s.store_success(&path, resp(200, b"page"));
    assert_eq!(s.get(&path).unwrap().body, b"page".to_vec());
    s.store_success(&path, resp(500, b"boom"));
    assert_eq!(s.get(&path).unwrap().body, b"page".to_vec());
    s.store_success(&path, resp(204, b""));
    assert_eq!(s.get(&path).unwrap().status, 204);
}

#[test]
fn cached_response_clone_is_deep_copy() {
    let original = CachedResponse {
        status: 201,
        headers: vec![(String::from("x-a"), String::from("1"))],
        body: b"body".to_vec(),
    };
    let copy = original.clone();
    assert_eq!(copy.status, 201);
    assert_eq!(copy.headers, original.headers);
    assert_eq!(copy.body, original.body);
}
