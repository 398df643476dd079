//! Runtime configuration: the origin base URL, listen address, cache bounds,
//! the static-asset directory, and optional TLS material paths.

use vstd::prelude::*;

verus! {

/// Default listen address, applied when none is supplied.
pub open spec fn default_listen_addr() -> Seq<char> {
    "0.0.0.0:8080"@
}

/// Default static-asset directory, applied when none is supplied.
pub open spec fn default_asset_path() -> Seq<char> {
    "/app/assets"@
}

/// Default cache time-to-live, in seconds.
pub const DEFAULT_CACHE_TTL_SECONDS: u64 = 300;

/// Default cache size budget, in megabytes.
pub const DEFAULT_CACHE_SIZE_MB: u64 = 100;

/// The proxy's configuration.  TLS is enabled iff both the certificate and
/// the key path are present.
pub struct Config {
    /// Absolute base URL of the origin server; required.
    pub origin_url: String,
    /// Address the plaintext listener binds.
    pub listen_addr: String,
    /// Directory the static-asset path serves from.
    pub asset_path: String,
    /// Seconds after insertion beyond which a cache entry is treated as absent.
    pub cache_ttl_seconds: u64,
    /// Cache size budget in megabytes.
    pub cache_size_mb: u64,
    /// Path of the TLS certificate chain file, if TLS is to be enabled.
    pub tls_cert_path: Option<String>,
    /// Path of the TLS private key file, if TLS is to be enabled.
    pub tls_key_path: Option<String>,
}

impl Config {
    /// Builds the configuration from the raw values the surrounding process
    /// collected, applying the documented default for each absent value.
    pub fn load(
        origin_url: String,
        listen_addr: Option<String>,
        asset_path: Option<String>,
        cache_ttl_seconds: Option<u64>,
        cache_size_mb: Option<u64>,
        tls_cert_path: Option<String>,
        tls_key_path: Option<String>,
    ) -> (r: Config)
        ensures
            r.origin_url@ == origin_url@,
            r.listen_addr@ == (match listen_addr {
                Some(a) => a@,
                None => default_listen_addr(),
            }),
            r.asset_path@ == (match asset_path {
                Some(p) => p@,
                None => default_asset_path(),
            }),
            r.cache_ttl_seconds == (match cache_ttl_seconds {
                Some(t) => t,
                None => DEFAULT_CACHE_TTL_SECONDS,
            }),
            r.cache_size_mb == (match cache_size_mb {
                Some(m) => m,
                None => DEFAULT_CACHE_SIZE_MB,
            }),
            r.tls_cert_path == tls_cert_path,
            r.tls_key_path == tls_key_path,
    {
        let listen_addr = match listen_addr {
            Some(a) => a,
            None => "0.0.0.0:8080".to_owned(),
        };
        let asset_path = match asset_path {
            Some(p) => p,
            None => "/app/assets".to_owned(),
        };
        let cache_ttl_seconds = match cache_ttl_seconds {
            Some(t) => t,
            None => DEFAULT_CACHE_TTL_SECONDS,
        };
        let cache_size_mb = match cache_size_mb {
            Some(m) => m,
            None => DEFAULT_CACHE_SIZE_MB,
        };
        Config {
            origin_url,
            listen_addr,
            asset_path,
            cache_ttl_seconds,
            cache_size_mb,
            tls_cert_path,
            tls_key_path,
        }
    }

    /// TLS is enabled iff both material paths are supplied.
    pub fn is_tls_enabled(&self) -> (r: bool)
        ensures
            r == (self.tls_cert_path is Some && self.tls_key_path is Some),
    {
        self.tls_cert_path.is_some() && self.tls_key_path.is_some()
    }
}

} // verus!
