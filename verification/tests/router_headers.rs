use shadowstep::cache::CdnCache;
use shadowstep::config::Config;
use shadowstep::fetcher::OriginFetcher;
use shadowstep::proxy::{
    build_client_response, cache_key_for, cache_lookup, error_response, maybe_cache_response,
    should_cache, translation_error_response, FetchFailure,
};

fn origin_fetcher(url: &str) -> OriginFetcher {
    let config = Config::load(String::from(url), None, None, None, None, None, None);
    OriginFetcher::new(&config).expect("origin URL should parse")
}

fn header_names(headers: &[(String, String)]) -> Vec<String> {
    headers.iter().map(|p| p.0.clone()).collect()
}

#[test]
fn method_restriction_post_never_touches_cache() {
    let mut cache = CdnCache::new(1, 100);
    // a GET entry exists under the same target
    cache.insert(String::from("/x"), 200, Vec::new(), b"cached".to_vec(), 0);

    assert_eq!(cache_key_for("POST", "/x"), None);
    assert_eq!(cache_key_for("GET", "/x"), Some(String::from("/x")));

    // POST neither consults ...
    assert!(cache_lookup(&cache, "POST", "/x", 1).is_none());
    assert!(cache_lookup(&cache, "GET", "/x", 1).is_some());

    // ... nor populates the cache
    let mut fresh = CdnCache::new(1, 100);
    maybe_cache_response(&mut fresh, "POST", "/x", 200, Vec::new(), b"body".to_vec(), 0);
    assert_eq!(fresh.len(), 0);
    assert!(fresh.get("/x", 1).is_none());
}

#[test]
fn non_cacheable_responses_never_stored() {
    let mut cache = CdnCache::new(1, 100);
    // successful GET with an empty body
    maybe_cache_response(&mut cache, "GET", "/empty", 200, Vec::new(), Vec::new(), 0);
    assert!(cache.get("/empty", 1).is_none());
    // non-2xx GET responses
    maybe_cache_response(&mut cache, "GET", "/miss", 404, Vec::new(), b"nope".to_vec(), 0);
    maybe_cache_response(&mut cache, "GET", "/redir", 301, Vec::new(), b"moved".to_vec(), 0);
    assert!(cache.get("/miss", 1).is_none());
    assert!(cache.get("/redir", 1).is_none());
    assert_eq!(cache.len(), 0);
    // while an eligible response is stored
    maybe_cache_response(&mut cache, "GET", "/ok", 201, Vec::new(), b"x".to_vec(), 0);
    assert!(cache.get("/ok", 1).is_some());
}

#[test]
fn should_cache_policy() {
    assert!(should_cache("GET", 200, 5));
    assert!(should_cache("GET", 299, 1));
    assert!(!should_cache("GET", 300, 5));
    assert!(!should_cache("GET", 199, 5));
    assert!(!should_cache("GET", 200, 0));
    assert!(!should_cache("POST", 200, 5));
    assert!(!should_cache("HEAD", 200, 5));
}

#[test]
fn header_stripping_on_forward() {
    let fetcher = origin_fetcher("https://api.example.com/v1");
    let headers = vec![
        (String::from("Connection"), String::from("close")),
        (String::from("X-Custom"), String::from("1")),
    ];
    let req = fetcher
        .prepare_origin_request(
            "GET",
            Some("/users?id=5"),
            &headers,
            Some(&String::from("10.0.0.1")),
            &String::from("https"),
            &String::from("client.example.org"),
            Vec::new(),
        )
        .expect("request should resolve");
    let names = header_names(&req.headers);
    assert!(!names.iter().any(|n| n.eq_ignore_ascii_case("connection")));
    assert!(req.headers.contains(&(String::from("X-Custom"), String::from("1"))));
    // Host equals the origin's authority, default port omitted
    assert!(req.headers.contains(&(String::from("host"), String::from("api.example.com"))));
    assert!(req.headers.contains(&(
        String::from("x-forwarded-for"),
        String::from("10.0.0.1")
    )));
    assert!(req.headers.contains(&(
        String::from("x-forwarded-proto"),
        String::from("https")
    )));
    assert!(req.headers.contains(&(
        String::from("x-forwarded-host"),
        String::from("client.example.org")
    )));
}

#[test]
fn host_header_keeps_non_default_port() {
    let fetcher = origin_fetcher("http://origin.internal:8081/base");
    assert_eq!(
        fetcher.authority(),
        Some(String::from("origin.internal:8081"))
    );
    let req = fetcher
        .prepare_origin_request(
            "GET",
            Some("/p"),
            &Vec::new(),
            None,
            &String::from("http"),
            &String::from("client"),
            Vec::new(),
        )
        .expect("request should resolve");
    assert!(req.headers.contains(&(
        String::from("host"),
        String::from("origin.internal:8081")
    )));
    // unavailable client address is reported as the literal string
    assert!(req.headers.contains(&(
        String::from("x-forwarded-for"),
        String::from("unknown")
    )));
}

#[test]
fn url_join_replaces_base_path() {
    let fetcher = origin_fetcher("https://api.example.com/v1");
    let target = fetcher.target_url(Some("/users?id=5")).expect("join should succeed");
    assert_eq!(target, String::from("https://api.example.com/users?id=5"));
}

#[test]
fn url_join_defaults_to_root() {
    let fetcher = origin_fetcher("https://api.example.com/v1");
    let target = fetcher.target_url(None).expect("join should succeed");
    assert_eq!(target, String::from("https://api.example.com/"));
}

#[test]
fn origin_parse_failure_is_fatal() {
    let config = Config::load(
        String::from("not a url"),
        None,
        None,
        None,
        None,
        None,
        None,
    );
    let err = OriginFetcher::new(&config).err().expect("parse should fail");
    assert_eq!(err.message(), String::from("url parse error: not a url"));
}

#[test]
fn failure_categories_distinguishable() {
    let origin = "https://api.example.com/v1";
    let (s1, connect) = error_response(FetchFailure::Connect, origin, "refused");
    let (s2, timeout) = error_response(FetchFailure::Timeout, origin, "deadline");
    let (s3, other) = error_response(FetchFailure::Other, origin, "bad frame");
    assert_eq!(s1, 502);
    assert_eq!(s2, 502);
    assert_eq!(s3, 502);
    assert_eq!(
        connect,
        String::from("Failed to connect to upstream server at https://api.example.com/v1: refused")
    );
    assert_eq!(
        timeout,
        String::from(
            "Request to upstream server at https://api.example.com/v1 timed out: deadline"
        )
    );
    assert_eq!(
        other,
        String::from(
            "Error communicating with upstream server at https://api.example.com/v1: bad frame"
        )
    );
    assert_ne!(connect, timeout);
    assert_ne!(connect, other);
    assert_ne!(timeout, other);
}

#[test]
fn translation_error_is_distinct_from_upstream_failure() {
    let (status, body) = translation_error_response("bad header");
    assert_eq!(status, 500);
    assert_eq!(body, String::from("request conversion error: bad header"));
}

#[test]
fn client_response_always_carries_cache_status() {
    let upstream_headers = vec![
        (String::from("Transfer-Encoding"), String::from("chunked")),
        (String::from("content-type"), String::from("text/html")),
    ];
    let miss = build_client_response(200, &upstream_headers, b"page".to_vec(), false);
    assert_eq!(miss.status, 200);
    assert_eq!(miss.body, b"page".to_vec());
    let names = header_names(&miss.headers);
    assert!(!names.iter().any(|n| n.eq_ignore_ascii_case("transfer-encoding")));
    assert!(miss.headers.contains(&(
        String::from("content-type"),
        String::from("text/html")
    )));
    assert!(miss.headers.contains(&(
        String::from("x-shadowstep-cache"),
        String::from("MISS")
    )));
    let hit = build_client_response(203, &Vec::new(), Vec::new(), true);
    assert!(hit.headers.contains(&(
        String::from("x-shadowstep-cache"),
        String::from("HIT")
    )));
}
