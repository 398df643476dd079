//! Hop-by-hop header handling: the fixed set of transport-scoped headers
//! that must never be relayed, and the sanitization of header collections
//! for forwarding in either direction.

use vstd::prelude::*;

verus! {

use crate::strutil::{ci_eq, eq_ignore_ascii_case};

/// `s` names one of the hop-by-hop headers, up to ASCII case:
/// `Connection`, `Proxy-Authenticate`, `Proxy-Authorization`, `TE`,
/// `Trailer`, `Transfer-Encoding`, `Upgrade`.
pub open spec fn is_hop_name(s: Seq<char>) -> bool {
    ||| ci_eq(s, "connection"@)
    ||| ci_eq(s, "proxy-authenticate"@)
    ||| ci_eq(s, "proxy-authorization"@)
    ||| ci_eq(s, "te"@)
    ||| ci_eq(s, "trailer"@)
    ||| ci_eq(s, "transfer-encoding"@)
    ||| ci_eq(s, "upgrade"@)
}

/// `s` names the `Host` header, up to ASCII case.
pub open spec fn is_host_name(s: Seq<char>) -> bool {
    ci_eq(s, "host"@)
}

/// Decides membership in the fixed hop-by-hop set.
pub fn is_hop_by_hop(name: &str) -> (r: bool)
    ensures
        r == is_hop_name(name@),
{
    eq_ignore_ascii_case(name, "connection") || eq_ignore_ascii_case(name, "proxy-authenticate")
        || eq_ignore_ascii_case(name, "proxy-authorization") || eq_ignore_ascii_case(name, "te")
        || eq_ignore_ascii_case(name, "trailer") || eq_ignore_ascii_case(
        name,
        "transfer-encoding",
    ) || eq_ignore_ascii_case(name, "upgrade")
}

/// The request-path filter: drops hop-by-hop headers and `Host`, keeps
/// everything else in order.
pub open spec fn strip_req(h: Seq<(Seq<char>, Seq<char>)>) -> Seq<(Seq<char>, Seq<char>)>
    decreases h.len(),
{
    if h.len() == 0 {
        Seq::empty()
    } else if is_hop_name(h[0].0) || is_host_name(h[0].0) {
        strip_req(h.drop_first())
    } else {
        seq![h[0]] + strip_req(h.drop_first())
    }
}

/// The response-path filter: drops hop-by-hop headers, keeps everything
/// else in order (`Host` and the forwarding headers are request-only
/// concerns).
pub open spec fn strip_resp(h: Seq<(Seq<char>, Seq<char>)>) -> Seq<(Seq<char>, Seq<char>)>
    decreases h.len(),
{
    if h.len() == 0 {
        Seq::empty()
    } else if is_hop_name(h[0].0) {
        strip_resp(h.drop_first())
    } else {
        seq![h[0]] + strip_resp(h.drop_first())
    }
}

/// Strips hop-by-hop headers from a response header collection.
pub fn sanitize_response_headers(h: &Vec<(String, String)>) -> (r: Vec<(String, String)>)
    ensures
        r.deep_view() == strip_resp(h.deep_view()),
{
    let ghost hv = h.deep_view();
    let mut out: Vec<(String, String)> = Vec::new();
    let n = h.len();
    assert(hv.skip(0) =~= hv);
    let mut i: usize = 0;
    while i < n
        invariant
            n == hv.len(),
            n == h.deep_view().len(),
            hv == h.deep_view(),
            0 <= i <= n,
            strip_resp(hv) =~= out.deep_view() + strip_resp(hv.skip(i as int)),
        decreases n - i,
    {
        assert(hv.skip(i as int)[0] == hv[i as int]);
        assert(hv.skip(i as int).drop_first() =~= hv.skip(i + 1));
        let name = h[i].0.clone();
        let value = h[i].1.clone();
        if !is_hop_by_hop(name.as_str()) {
            let ghost prev = out.deep_view();
            out.push((name, value));
            assert(out.deep_view() =~= prev.push((hv[i as int].0, hv[i as int].1)));
            assert(prev.push((hv[i as int].0, hv[i as int].1)) =~= prev + seq![
                hv[i as int],
            ]);
        }
        i = i + 1;
    }
    assert(hv.skip(n as int) =~= Seq::<(Seq<char>, Seq<char>)>::empty());
    out
}

/// The outbound header collection for a request: the stripped inbound
/// headers, then a `Host` header carrying the origin's authority (absent
/// when the origin has no host), then the three forwarding headers.  An
/// unavailable client address is reported as the literal `unknown`.
pub open spec fn spec_forward_headers(
    h: Seq<(Seq<char>, Seq<char>)>,
    client_ip: Option<Seq<char>>,
    scheme: Seq<char>,
    client_host: Seq<char>,
    authority: Option<Seq<char>>,
) -> Seq<(Seq<char>, Seq<char>)> {
    strip_req(h) + (match authority {
        Some(a) => seq![("host"@, a)],
        None => Seq::empty(),
    }) + seq![
        ("x-forwarded-for"@, match client_ip {
            Some(ip) => ip,
            None => "unknown"@,
        }),
        ("x-forwarded-proto"@, scheme),
        ("x-forwarded-host"@, client_host),
    ]
}

/// Builds the header collection forwarded to the origin: strips hop-by-hop
/// headers and `Host`, sets `Host` to the origin's authority, and injects
/// the `X-Forwarded-For`, `X-Forwarded-Proto` and `X-Forwarded-Host`
/// metadata.
pub fn build_forward_headers(
    h: &Vec<(String, String)>,
    client_ip: Option<&String>,
    scheme: &String,
    client_host: &String,
    authority: Option<String>,
) -> (r: Vec<(String, String)>)
    ensures
        r.deep_view() == spec_forward_headers(
            h.deep_view(),
            match client_ip {
                Some(ip) => Some(ip@),
                None => None,
            },
            scheme@,
            client_host@,
            match authority {
                Some(a) => Some(a@),
                None => None,
            },
        ),
{
    let ghost hv = h.deep_view();
    let mut out: Vec<(String, String)> = Vec::new();
    let n = h.len();
    assert(hv.skip(0) =~= hv);
    let mut i: usize = 0;
    while i < n
        invariant
            n == hv.len(),
            n == h.deep_view().len(),
            hv == h.deep_view(),
            0 <= i <= n,
            strip_req(hv) =~= out.deep_view() + strip_req(hv.skip(i as int)),
        decreases n - i,
    {
        assert(hv.skip(i as int)[0] == hv[i as int]);
        assert(hv.skip(i as int).drop_first() =~= hv.skip(i + 1));
        let name = h[i].0.clone();
        let value = h[i].1.clone();
        if !is_hop_by_hop(name.as_str()) && !eq_ignore_ascii_case(name.as_str(), "host") {
            let ghost prev = out.deep_view();
            out.push((name, value));
            assert(out.deep_view() =~= prev.push((hv[i as int].0, hv[i as int].1)));
            assert(prev.push((hv[i as int].0, hv[i as int].1)) =~= prev + seq![hv[i as int]]);
        }
        i = i + 1;
    }
    assert(hv.skip(n as int) =~= Seq::<(Seq<char>, Seq<char>)>::empty());
    assert(out.deep_view() =~= strip_req(hv));
    let ghost authority_view: Option<Seq<char>> = match &authority {
        Some(a) => Some(a@),
        None => None,
    };
    match authority {
        Some(a) => {
            out.push(("host".to_owned(), a));
        },
        None => {},
    }
    let fwd_for = match client_ip {
        Some(ip) => ip.clone(),
        None => "unknown".to_owned(),
    };
    out.push(("x-forwarded-for".to_owned(), fwd_for));
    out.push(("x-forwarded-proto".to_owned(), scheme.clone()));
    out.push(("x-forwarded-host".to_owned(), client_host.clone()));
    assert(out.deep_view() =~= spec_forward_headers(
        hv,
        match client_ip {
            Some(ip) => Some(ip@),
            None => None,
        },
        scheme@,
        client_host@,
        authority_view,
    ));
    out
}

/// Every header of `strip_req(h)` is neither hop-by-hop nor `Host`, and
/// every such header of `h` survives the filter.
pub proof fn lemma_strip_req_props(h: Seq<(Seq<char>, Seq<char>)>)
    ensures
        forall|j: int|
            0 <= j < strip_req(h).len() ==> !is_hop_name(#[trigger] strip_req(h)[j].0)
                && !is_host_name(strip_req(h)[j].0),
        forall|j: int|
            0 <= j < h.len() && !is_hop_name(h[j].0) && !is_host_name(h[j].0) ==> strip_req(
                h,
            ).contains(#[trigger] h[j]),
    decreases h.len(),
{
    if h.len() == 0 {
    } else {
        let rest = h.drop_first();
        lemma_strip_req_props(rest);
        assert forall|j: int|
            0 <= j < h.len() && !is_hop_name(h[j].0) && !is_host_name(h[j].0) implies strip_req(
            h,
        ).contains(#[trigger] h[j]) by {
            if j == 0 {
                assert(strip_req(h)[0] == h[0]);
            } else {
                assert(rest[j - 1] == h[j]);
                assert(rest.contains(h[j]) ==> strip_req(rest).contains(h[j]));
                let k = choose|k: int|
                    0 <= k < strip_req(rest).len() && strip_req(rest)[k] == h[j];
                if is_hop_name(h[0].0) || is_host_name(h[0].0) {
                    assert(strip_req(h)[k] == h[j]);
                } else {
                    assert(strip_req(h)[k + 1] == h[j]);
                }
            }
        }
    }
}

/// The counterpart for the response filter: no hop-by-hop header survives,
/// every other header does.
pub proof fn lemma_strip_resp_props(h: Seq<(Seq<char>, Seq<char>)>)
    ensures
        forall|j: int|
            0 <= j < strip_resp(h).len() ==> !is_hop_name(#[trigger] strip_resp(h)[j].0),
        forall|j: int|
            0 <= j < h.len() && !is_hop_name(h[j].0) ==> strip_resp(h).contains(#[trigger] h[j]),
    decreases h.len(),
{
    if h.len() == 0 {
    } else {
        let rest = h.drop_first();
        lemma_strip_resp_props(rest);
        assert forall|j: int|
            0 <= j < h.len() && !is_hop_name(h[j].0) implies strip_resp(h).contains(
            #[trigger] h[j],
        ) by {
            if j == 0 {
                assert(strip_resp(h)[0] == h[0]);
            } else {
                assert(rest[j - 1] == h[j]);
                assert(rest.contains(h[j]) ==> strip_resp(rest).contains(h[j]));
                let k = choose|k: int|
                    0 <= k < strip_resp(rest).len() && strip_resp(rest)[k] == h[j];
                if is_hop_name(h[0].0) {
                    assert(strip_resp(h)[k] == h[j]);
                } else {
                    assert(strip_resp(h)[k + 1] == h[j]);
                }
            }
        }
    }
}

/// None of the names this module injects is hop-by-hop.
proof fn lemma_injected_names_not_hop()
    ensures
        !is_hop_name("host"@),
        !is_hop_name("x-forwarded-for"@),
        !is_hop_name("x-forwarded-proto"@),
        !is_hop_name("x-forwarded-host"@),
{
    reveal_strlit("connection");
    reveal_strlit("proxy-authenticate");
    reveal_strlit("proxy-authorization");
    reveal_strlit("te");
    reveal_strlit("trailer");
    reveal_strlit("transfer-encoding");
    reveal_strlit("upgrade");
    reveal_strlit("host");
    reveal_strlit("x-forwarded-for");
    reveal_strlit("x-forwarded-proto");
    reveal_strlit("x-forwarded-host");
    // the only hop name of the same length differs in its first character
    assert(crate::strutil::lower_code("x-forwarded-proto"@[0]) != crate::strutil::lower_code(
        "transfer-encoding"@[0],
    ));
}

/// Header stripping, whole-collection form: the outbound collection holds
/// no hop-by-hop header, keeps every header that is neither hop-by-hop nor
/// `Host`, sets `Host` to the origin's authority (when the origin has
/// one), and carries the three forwarding headers.
pub proof fn lemma_forward_headers_props(
    h: Seq<(Seq<char>, Seq<char>)>,
    client_ip: Option<Seq<char>>,
    scheme: Seq<char>,
    client_host: Seq<char>,
    authority: Option<Seq<char>>,
)
    ensures
        forall|j: int|
            0 <= j < spec_forward_headers(h, client_ip, scheme, client_host, authority).len()
                ==> !is_hop_name(
                #[trigger] spec_forward_headers(h, client_ip, scheme, client_host, authority)[j].0,
            ),
        forall|j: int|
            0 <= j < h.len() && !is_hop_name(h[j].0) && !is_host_name(h[j].0)
                ==> spec_forward_headers(h, client_ip, scheme, client_host, authority).contains(
                #[trigger] h[j],
            ),
        authority matches Some(a) ==> spec_forward_headers(
            h,
            client_ip,
            scheme,
            client_host,
            authority,
        ).contains(("host"@, a)),
        spec_forward_headers(h, client_ip, scheme, client_host, authority).contains(
            ("x-forwarded-for"@, match client_ip {
                Some(ip) => ip,
                None => "unknown"@,
            }),
        ),
        spec_forward_headers(h, client_ip, scheme, client_host, authority).contains(
            ("x-forwarded-proto"@, scheme),
        ),
        spec_forward_headers(h, client_ip, scheme, client_host, authority).contains(
            ("x-forwarded-host"@, client_host),
        ),
{
    lemma_strip_req_props(h);
    lemma_injected_names_not_hop();
    let out = spec_forward_headers(h, client_ip, scheme, client_host, authority);
    let sr = strip_req(h);
    let base = sr.len() + (match authority {
        Some(_) => 1int,
        None => 0int,
    });
    match authority {
        Some(a) => {
            assert(out[sr.len() as int] == ("host"@, a));
        },
        None => {},
    }
    assert(out[base] == ("x-forwarded-for"@, match client_ip {
        Some(ip) => ip,
        None => "unknown"@,
    }));
    assert(out[base + 1] == ("x-forwarded-proto"@, scheme));
    assert(out[base + 2] == ("x-forwarded-host"@, client_host));
    assert forall|j: int| 0 <= j < out.len() implies !is_hop_name(#[trigger] out[j].0) by {
        if j < sr.len() {
            assert(out[j] == sr[j]);
        }
    }
    assert forall|j: int|
        0 <= j < h.len() && !is_hop_name(h[j].0) && !is_host_name(h[j].0) implies out.contains(
        #[trigger] h[j],
    ) by {
        let k = choose|k: int| 0 <= k < sr.len() && sr[k] == h[j];
        assert(out[k] == h[j]);
    }
}

} // verus!
