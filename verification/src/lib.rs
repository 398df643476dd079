//! Core logic of an edge caching proxy: cache-key derivation, a TTL- and
//! capacity-bounded response store, hop-by-hop header sanitization, origin
//! URL resolution, and the translation of upstream failures into a stable
//! client-facing error contract.

pub mod assets;
pub mod cache;
pub mod config;
pub mod fetcher;
pub mod headers;
pub mod proxy;
pub mod strutil;
pub mod tls;
pub mod util;
