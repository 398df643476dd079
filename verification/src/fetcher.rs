//! The origin side of the proxy: the parsed origin base URL, resolution of
//! an incoming request's path-and-query against it, and assembly of the
//! outbound request.  The actual network transfer is performed by the
//! surrounding process; everything here is pure computation.

use vstd::prelude::*;
use vstd::string::StringExecFns;

verus! {

use crate::config::Config;
use crate::headers::{build_forward_headers, spec_forward_headers};
use crate::strutil::{dec_of, dec_str_u16};
use crate::util::ShadowError;

/// What `url::Url::parse` extracts from an absolute URL string: scheme,
/// host, explicit (non-default) port, and the normalized serialization.
/// `None` when the string does not parse as an absolute URL.
pub uninterp spec fn origin_parts_of(s: Seq<char>) -> Option<
    (Seq<char>, Option<Seq<char>>, Option<u16>, Seq<char>),
>;

/// Relies on `url::Url::parse` and the accessors `scheme`, `host_str`,
/// `port` and `as_str` of the parsed URL.  `port` is `None` when the port
/// is the scheme's default, so an authority built from these parts omits
/// the default port.
#[verifier::external_body]
fn parse_origin_url(s: &str) -> (r: Option<(String, Option<String>, Option<u16>, String)>)
    ensures
        (r is Some) == (origin_parts_of(s@) is Some),
        r matches Some(t) ==> origin_parts_of(s@) matches Some(p) && t.0@ == p.0 && (match (
            &t.1,
            p.1,
        ) {
            (Some(h), Some(hp)) => h@ == hp,
            (None, None) => true,
            _ => false,
        }) && t.2 == p.2 && t.3@ == p.3,
{
    match url::Url::parse(s) {
        Ok(u) => Some(
            (
                String::from(u.scheme()),
                u.host_str().map(|h| String::from(h)),
                u.port(),
                String::from(u.as_str()),
            ),
        ),
        Err(_) => None,
    }
}

/// What resolving `rel` against the absolute URL `base` yields under
/// standard relative-URL resolution, serialized; `None` when `base` does
/// not parse or the resolution fails.
pub uninterp spec fn join_of(base: Seq<char>, rel: Seq<char>) -> Option<Seq<char>>;

/// Relies on `url::Url::parse` and `url::Url::join`: an absolute path
/// replaces the base's path, and the base's scheme, host and port are kept.
#[verifier::external_body]
fn join_url(base: &str, rel: &str) -> (r: Option<String>)
    ensures
        (r is Some) == (join_of(base@, rel@) is Some),
        r matches Some(u) ==> join_of(base@, rel@) matches Some(v) && u@ == v,
{
    match url::Url::parse(base) {
        Ok(b) => match b.join(rel) {
            Ok(u) => Some(String::from(u.as_str())),
            Err(_) => None,
        },
        Err(_) => None,
    }
}

/// The authority form `host[:port]`; the port is omitted when it is the
/// scheme's default (80 for HTTP, 443 for HTTPS).
pub open spec fn spec_authority(host: Seq<char>, port: Option<u16>) -> Seq<char> {
    match port {
        None => host,
        Some(p) => host + ":"@ + dec_of(p as nat),
    }
}

/// The incoming path-and-query, with `/` substituted when the request
/// carries none.
pub open spec fn effective_pq(pq: Option<&str>) -> Seq<char> {
    match pq {
        Some(s) => s@,
        None => "/"@,
    }
}

/// The immutable origin context: the parsed origin base URL, shared
/// read-only across all request handlers.
pub struct OriginFetcher {
    /// Normalized serialization of the origin base URL.
    pub base: String,
    /// The origin's scheme.
    pub scheme: String,
    /// The origin's host, when the URL has one.
    pub host: Option<String>,
    /// The origin's port, when it differs from the scheme's default.
    pub port: Option<u16>,
}

/// The origin's authority as sequence, when the origin has a host.
pub open spec fn spec_authority_of(f: &OriginFetcher) -> Option<Seq<char>> {
    match f.host {
        Some(h) => Some(spec_authority(h@, f.port)),
        None => None,
    }
}

/// A fully assembled outbound request, ready for the transport.
pub struct OutboundRequest {
    /// The request method, forwarded unchanged.
    pub method: String,
    /// The resolved target URL at the origin.
    pub url: String,
    /// The sanitized header collection.
    pub headers: Vec<(String, String)>,
    /// The request body, forwarded verbatim.
    pub body: Vec<u8>,
}

impl OriginFetcher {
    /// Parses the configured origin base URL.  Fails, fatally at startup,
    /// exactly when the URL does not parse as an absolute URL.
    pub fn new(config: &Config) -> (r: Result<OriginFetcher, ShadowError>)
        ensures
            (r is Ok) == (origin_parts_of(config.origin_url@) is Some),
            r matches Ok(f) ==> origin_parts_of(config.origin_url@) matches Some(p) && f.scheme@
                == p.0 && (match (&f.host, p.1) {
                (Some(h), Some(hp)) => h@ == hp,
                (None, None) => true,
                _ => false,
            }) && f.port == p.2 && f.base@ == p.3,
            r matches Err(e) ==> e matches ShadowError::UrlParse(d) && d@ == config.origin_url@,
    {
        match parse_origin_url(config.origin_url.as_str()) {
            Some(t) => {
                let (scheme, host, port, base) = t;
                Ok(OriginFetcher { base, scheme, host, port })
            },
            None => Err(ShadowError::UrlParse(config.origin_url.clone())),
        }
    }

    /// The origin's authority: hostname plus port, the port omitted when it
    /// is the scheme's default.
    pub fn authority(&self) -> (r: Option<String>)
        ensures
            (r is Some) == (spec_authority_of(self) is Some),
            r matches Some(a) ==> spec_authority_of(self) matches Some(v) && a@ == v,
    {
        match &self.host {
            Some(h) => {
                let mut s = h.clone();
                match self.port {
                    Some(p) => {
                        s.append(":");
                        let digits = dec_str_u16(p);
                        s.append(digits.as_str());
                    },
                    None => {},
                }
                Some(s)
            },
            None => None,
        }
    }

    /// Resolves the incoming request's path-and-query against the origin
    /// base URL; `/` is used when the request carries none.  Fails exactly
    /// when the resolution fails, with the target named in the error.
    pub fn target_url(&self, path_and_query: Option<&str>) -> (r: Result<String, ShadowError>)
        ensures
            (r is Ok) == (join_of(self.base@, effective_pq(path_and_query)) is Some),
            r matches Ok(u) ==> join_of(self.base@, effective_pq(path_and_query)) matches Some(v)
                && u@ == v,
            r matches Err(e) ==> e matches ShadowError::UrlParse(d) && d@ == effective_pq(
                path_and_query,
            ),
    {
        let pq: &str = match path_and_query {
            Some(s) => s,
            None => "/",
        };
        match join_url(self.base.as_str(), pq) {
            Some(u) => Ok(u),
            None => Err(ShadowError::UrlParse(pq.to_owned())),
        }
    }

    /// Assembles the outbound request: resolves the target URL, sanitizes
    /// the headers, rewrites `Host` to the origin's authority, injects the
    /// forwarding metadata, and carries the body verbatim.
    pub fn prepare_origin_request(
        &self,
        method: &str,
        path_and_query: Option<&str>,
        headers: &Vec<(String, String)>,
        client_ip: Option<&String>,
        scheme: &String,
        client_host: &String,
        body: Vec<u8>,
    ) -> (r: Result<OutboundRequest, ShadowError>)
        ensures
            (r is Ok) == (join_of(self.base@, effective_pq(path_and_query)) is Some),
            r matches Ok(req) ==> req.method@ == method@ && (join_of(
                self.base@,
                effective_pq(path_and_query),
            ) matches Some(v) && req.url@ == v) && req.headers.deep_view() == spec_forward_headers(
                headers.deep_view(),
                match client_ip {
                    Some(ip) => Some(ip@),
                    None => None,
                },
                scheme@,
                client_host@,
                spec_authority_of(self),
            ) && req.body@ == body@,
            r matches Err(e) ==> e matches ShadowError::UrlParse(d) && d@ == effective_pq(
                path_and_query,
            ),
    {
        let url = match self.target_url(path_and_query) {
            Ok(u) => u,
            Err(e) => {
                return Err(e);
            },
        };
        let authority = self.authority();
        let out_headers = build_forward_headers(headers, client_ip, scheme, client_host, authority);
        Ok(OutboundRequest { method: method.to_owned(), url, headers: out_headers, body })
    }
}

} // verus!
