use shadowstep::assets::{
    asset_headers, compute_etag, not_modified, store_asset, AssetCache, CacheStats,
};
use shadowstep::config::Config;
use shadowstep::strutil::{dec_str_u16, eq_ignore_ascii_case};
use shadowstep::tls::load_rustls_config;

#[test]
fn etag_is_quoted_truncated_sha256_hex() {
    // SHA-256("hello") begins 2cf24dba5fb0a30e26e83b2ac5b9e29e...
    let etag = compute_etag(b"hello");
    assert_eq!(etag, String::from("\"2cf24dba5fb0a30e26e83b2ac5b9e29e\""));
    // different content, different tag
    assert_ne!(compute_etag(b"hello!"), etag);
}

#[test]
fn conditional_request_decision() {
    let etag = String::from("\"abc\"");
    assert!(not_modified(&etag, Some(&String::from("\"abc\""))));
    assert!(!not_modified(&etag, Some(&String::from("\"abd\""))));
    assert!(!not_modified(&etag, None));
}

#[test]
fn asset_store_round_trip() {
    let mut cache = AssetCache::new();
    assert_eq!(cache.len(), 0);
    assert!(cache.get("styles.css").is_none());

    let etag = store_asset(&mut cache, "styles.css", b"body{}".to_vec());
    assert_eq!(etag, compute_etag(b"body{}"));
    assert_eq!(cache.len(), 1);
    let entry = cache.get("styles.css").expect("stored asset should be found");
    assert_eq!(entry.content, b"body{}".to_vec());
    assert_eq!(entry.etag, etag);

    // wholesale replacement under the same name
    let etag2 = store_asset(&mut cache, "styles.css", b"p{}".to_vec());
    assert_eq!(cache.len(), 1);
    assert_eq!(
        cache.get("styles.css").expect("replaced asset").content,
        b"p{}".to_vec()
    );
    assert_ne!(etag, etag2);
}

#[test]
fn asset_headers_shape() {
    let etag = String::from("\"t\"");
    let hit = asset_headers(&etag, true);
    assert_eq!(
        hit,
        vec![
            (String::from("etag"), String::from("\"t\"")),
            (
                String::from("cache-control"),
                String::from("public, max-age=86400")
            ),
            (String::from("x-shadowstep-cache"), String::from("HIT")),
        ]
    );
    let miss = asset_headers(&etag, false);
    assert_eq!(miss[2], (String::from("x-shadowstep-cache"), String::from("MISS")));
}

#[test]
fn cache_stats_counters() {
    let mut stats = CacheStats::new();
    stats.record_hit();
    stats.record_hit();
    stats.record_miss(7);
    assert_eq!(stats.hits, 2);
    assert_eq!(stats.misses, 1);
    assert_eq!(stats.items, 7);
}

#[test]
fn config_defaults_applied() {
    let config = Config::load(
        String::from("http://origin/"),
        None,
        None,
        None,
        None,
        None,
        None,
    );
    assert_eq!(config.origin_url, String::from("http://origin/"));
    assert_eq!(config.listen_addr, String::from("0.0.0.0:8080"));
    assert_eq!(config.asset_path, String::from("/app/assets"));
    assert_eq!(config.cache_ttl_seconds, 300);
    assert_eq!(config.cache_size_mb, 100);
    assert!(!config.is_tls_enabled());
}

#[test]
fn config_explicit_values_kept() {
    let config = Config::load(
        String::from("http://origin/"),
        Some(String::from("127.0.0.1:9000")),
        Some(String::from("/srv/assets")),
        Some(60),
        Some(8),
        Some(String::from("/etc/cert.pem")),
        Some(String::from("/etc/key.pem")),
    );
    assert_eq!(config.listen_addr, String::from("127.0.0.1:9000"));
    assert_eq!(config.asset_path, String::from("/srv/assets"));
    assert_eq!(config.cache_ttl_seconds, 60);
    assert_eq!(config.cache_size_mb, 8);
    assert!(config.is_tls_enabled());
}

#[test]
fn tls_enabled_requires_both_paths() {
    let with_cert_only = Config::load(
        String::from("http://origin/"),
        None,
        None,
        None,
        None,
        Some(String::from("/etc/cert.pem")),
        None,
    );
    assert!(!with_cert_only.is_tls_enabled());
    let with_key_only = Config::load(
        String::from("http://origin/"),
        None,
        None,
        None,
        None,
        None,
        Some(String::from("/etc/key.pem")),
    );
    assert!(!with_key_only.is_tls_enabled());
}

#[test]
fn tls_material_without_sections_is_rejected() {
    // no CERTIFICATE section at all
    let err = load_rustls_config(b"", b"")
        .err()
        .expect("empty material should fail");
    assert_eq!(
        err.message(),
        String::from("tls configuration error: no certificates found in cert file")
    );
}

#[test]
fn tls_key_file_without_keys_is_rejected() {
    // a syntactically valid certificate section, but an empty key file
    let cert_pem = b"-----BEGIN CERTIFICATE-----\nAAAA\n-----END CERTIFICATE-----\n";
    let err = load_rustls_config(cert_pem, b"plain text")
        .err()
        .expect("missing keys should fail");
    assert_eq!(
        err.message(),
        String::from("tls configuration error: no private keys found in key file")
    );
}

#[test]
fn case_insensitive_comparison() {
    assert!(eq_ignore_ascii_case("Connection", "cOnNeCtIoN"));
    assert!(!eq_ignore_ascii_case("connection", "connect"));
    assert!(!eq_ignore_ascii_case("a", "b"));
    assert!(eq_ignore_ascii_case("", ""));
}

#[test]
fn decimal_rendering() {
    assert_eq!(dec_str_u16(0), String::from("0"));
    assert_eq!(dec_str_u16(7), String::from("7"));
    assert_eq!(dec_str_u16(8081), String::from("8081"));
    assert_eq!(dec_str_u16(65535), String::from("65535"));
}
