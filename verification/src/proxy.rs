//! Per-request routing decisions: cache-key derivation, the insertion
//! policy, relay of responses with sanitized headers and a cache-status
//! indicator, and the translation of upstream transport failures into the
//! client-facing error contract.

use vstd::prelude::*;
use vstd::string::StringExecFns;

verus! {

use crate::cache::{CachedResponse, CdnCache, RespModel};
use crate::headers::{sanitize_response_headers, strip_resp};

/// `m` is the one method whose requests are considered for caching.
pub open spec fn spec_is_get(m: Seq<char>) -> bool {
    m == "GET"@
}

/// The cache key a request produces: the full request-target (path plus
/// query) for `GET` requests, nothing for any other method.  The key does
/// not vary by header.
pub open spec fn spec_cache_key(method: Seq<char>, target: Seq<char>) -> Option<Seq<char>> {
    if spec_is_get(method) {
        Some(target)
    } else {
        None
    }
}

/// Compares two strings for (case-sensitive) equality.
fn str_eq(a: &str, b: &str) -> (r: bool)
    ensures
        r == (a@ == b@),
{
    let a_owned = a.to_owned();
    let b_owned = b.to_owned();
    a_owned == b_owned
}

/// Derives the cache key for a request, if the method admits one.
pub fn cache_key_for(method: &str, target: &str) -> (r: Option<String>)
    ensures
        (r is Some) == (spec_cache_key(method@, target@) is Some),
        r matches Some(k) ==> spec_cache_key(method@, target@) matches Some(v) && k@ == v,
{
    if str_eq(method, "GET") {
        Some(target.to_owned())
    } else {
        None
    }
}

/// The insertion policy: only a `GET` whose origin response has a success
/// (2xx) status and a non-empty body is cached.
pub open spec fn spec_should_cache(method: Seq<char>, status: u16, body_len: nat) -> bool {
    spec_is_get(method) && 200 <= status < 300 && body_len > 0
}

/// Decides whether an origin response is eligible for insertion.
pub fn should_cache(method: &str, status: u16, body_len: usize) -> (r: bool)
    ensures
        r == spec_should_cache(method@, status, body_len as nat),
{
    str_eq(method, "GET") && 200 <= status && status < 300 && body_len > 0
}

/// The cache-check step: consults the store only for `GET` requests; all
/// other methods bypass the cache entirely.
pub fn cache_lookup<'a>(cache: &'a CdnCache, method: &str, target: &str, now: u64) -> (r: Option<
    &'a CachedResponse,
>)
    requires
        cache.wf(),
    ensures
        !spec_is_get(method@) ==> r is None,
        r matches Some(resp) ==> spec_is_get(method@) && cache.spec_get(target@, now) == Some(
            resp@,
        ),
        spec_is_get(method@) && r is None ==> cache.spec_get(target@, now) is None,
{
    if str_eq(method, "GET") {
        cache.get(target, now)
    } else {
        None
    }
}

/// The maybe-cache step: applies the insertion policy and, when it admits
/// the response, stores it under the request's target at time `now`.  A
/// response the policy rejects leaves the store untouched.
pub fn maybe_cache_response(
    cache: &mut CdnCache,
    method: &str,
    target: &str,
    status: u16,
    headers: Vec<(String, String)>,
    body: Vec<u8>,
    now: u64,
)
    requires
        old(cache).wf(),
    ensures
        final(cache).wf(),
        final(cache).spec_max() == old(cache).spec_max(),
        final(cache).spec_ttl() == old(cache).spec_ttl(),
        !spec_should_cache(method@, status, body@.len()) ==> *final(cache) == *old(cache),
        spec_should_cache(method@, status, body@.len()) && old(cache).spec_max() > 0 ==> {
            &&& final(cache).spec_contains(target@)
            &&& final(cache).spec_inserted_at(target@) == now
            &&& final(cache).spec_resp(target@) == (RespModel {
                status: status as int,
                headers: headers.deep_view(),
                body: body.deep_view(),
            })
            &&& forall|k: Seq<char>|
                k != target@ && #[trigger] final(cache).spec_contains(k) ==> old(
                    cache,
                ).spec_contains(k) && final(cache).spec_resp(k) == old(cache).spec_resp(k)
            &&& (old(cache).spec_contains(target@) || old(cache).spec_len() < old(
                cache,
            ).spec_max()) ==> forall|k: Seq<char>|
                #[trigger] old(cache).spec_contains(k) ==> final(cache).spec_contains(k)
            &&& final(cache).spec_len() == (if old(cache).spec_contains(target@) {
                old(cache).spec_len()
            } else if old(cache).spec_len() < old(cache).spec_max() {
                old(cache).spec_len() + 1
            } else {
                old(cache).spec_len()
            })
        },
{
    if should_cache(method, status, body.len()) {
        cache.insert(target.to_owned(), status, headers, body, now);
    }
}

/// The distinguishable categories of upstream transport failure; they are
/// never collapsed and never retried.
pub enum FetchFailure {
    /// The connection to the origin could not be established.
    Connect,
    /// The origin fetch timed out.
    Timeout,
    /// Any other transport error, such as a malformed response.
    Other,
}

/// The body of the 502 response for a failure category: it names the
/// category, the origin involved, and the transport's own detail.
pub open spec fn spec_error_body(kind: FetchFailure, origin: Seq<char>, detail: Seq<char>) -> Seq<
    char,
> {
    match kind {
        FetchFailure::Connect => "Failed to connect to upstream server at "@ + origin + ": "@
            + detail,
        FetchFailure::Timeout => "Request to upstream server at "@ + origin + " timed out: "@
            + detail,
        FetchFailure::Other => "Error communicating with upstream server at "@ + origin + ": "@
            + detail,
    }
}

/// Builds the client-visible 502 response for an upstream failure.
pub fn error_response(kind: FetchFailure, origin: &str, detail: &str) -> (r: (u16, String))
    ensures
        r.0 == 502,
        r.1@ == spec_error_body(kind, origin@, detail@),
{
    let mut body = match kind {
        FetchFailure::Connect => "Failed to connect to upstream server at ".to_owned(),
        FetchFailure::Timeout => "Request to upstream server at ".to_owned(),
        FetchFailure::Other => "Error communicating with upstream server at ".to_owned(),
    };
    body.append(origin);
    match kind {
        FetchFailure::Timeout => body.append(" timed out: "),
        _ => body.append(": "),
    }
    body.append(detail);
    (502, body)
}

/// Builds the client-visible 500 response for a request that could not be
/// translated for forwarding; distinct from the upstream-failure contract.
pub fn translation_error_response(detail: &str) -> (r: (u16, String))
    ensures
        r.0 == 500,
        r.1@ == "request conversion error: "@ + detail@,
{
    let mut body = "request conversion error: ".to_owned();
    body.append(detail);
    (500, body)
}

/// A terminal response, ready for relay to the client.
pub struct ClientResponse {
    /// The status passed through from the origin or the cache.
    pub status: u16,
    /// Sanitized headers followed by the cache-status indicator.
    pub headers: Vec<(String, String)>,
    /// The body, unchanged.
    pub body: Vec<u8>,
}

/// Builds the terminal response: strips hop-by-hop headers and appends the
/// cache-status header, `HIT` for a served cache entry and `MISS`
/// otherwise (including for non-cacheable methods).
pub fn build_client_response(
    status: u16,
    headers: &Vec<(String, String)>,
    body: Vec<u8>,
    from_cache: bool,
) -> (r: ClientResponse)
    ensures
        r.status == status,
        r.body@ == body@,
        r.headers.deep_view() == strip_resp(headers.deep_view()) + seq![
            ("x-shadowstep-cache"@, (if from_cache {
                "HIT"@
            } else {
                "MISS"@
            })),
        ],
{
    let mut out = sanitize_response_headers(headers);
    let ghost prev = out.deep_view();
    let indicator = if from_cache {
        "HIT".to_owned()
    } else {
        "MISS".to_owned()
    };
    out.push(("x-shadowstep-cache".to_owned(), indicator));
    assert(out.deep_view() =~= prev + seq![
        ("x-shadowstep-cache"@, (if from_cache {
            "HIT"@
        } else {
            "MISS"@
        })),
    ]);
    ClientResponse { status, headers: out, body }
}

/// Method restriction: a non-`GET` request produces no cache key, so it
/// neither consults nor populates the cache, whatever is stored under the
/// same target for `GET`.
pub proof fn lemma_method_restriction(
    method: Seq<char>,
    target: Seq<char>,
    status: u16,
    body_len: nat,
)
    requires
        method != "GET"@,
    ensures
        spec_cache_key(method, target) is None,
        !spec_should_cache(method, status, body_len),
{
}

/// Non-cacheable responses: a response with an empty body, or with a
/// non-2xx status, is never admitted by the insertion policy.
pub proof fn lemma_non_cacheable_response(method: Seq<char>, status: u16, body_len: nat)
    requires
        !(200 <= status < 300) || body_len == 0,
    ensures
        !spec_should_cache(method, status, body_len),
{
}

/// Failure categorization: for one origin and one transport detail, the
/// three failure categories produce pairwise different bodies.
pub proof fn lemma_failure_categories_distinct(origin: Seq<char>, detail: Seq<char>)
    ensures
        spec_error_body(FetchFailure::Connect, origin, detail) != spec_error_body(
            FetchFailure::Timeout,
            origin,
            detail,
        ),
        spec_error_body(FetchFailure::Connect, origin, detail) != spec_error_body(
            FetchFailure::Other,
            origin,
            detail,
        ),
        spec_error_body(FetchFailure::Timeout, origin, detail) != spec_error_body(
            FetchFailure::Other,
            origin,
            detail,
        ),
{
    reveal_strlit("Failed to connect to upstream server at ");
    reveal_strlit("Request to upstream server at ");
    reveal_strlit("Error communicating with upstream server at ");
    let c = spec_error_body(FetchFailure::Connect, origin, detail);
    let t = spec_error_body(FetchFailure::Timeout, origin, detail);
    let o = spec_error_body(FetchFailure::Other, origin, detail);
    assert(c[0] == 'F');
    assert(t[0] == 'R');
    assert(o[0] == 'E');
}

} // verus!
