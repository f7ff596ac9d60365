//! The request dispatcher: host lookup, request-URI reconstruction, header
//! rewriting, and the terminal decision after the upstream send.

use crate::config::ConfigMap;
use vstd::prelude::*;

verus! {

/// Length of the prefix of `s` before its first colon (the whole of `s`
/// when it has none).
pub open spec fn spec_bare_len(s: Seq<char>) -> int
    decreases s.len(),
{
    if s.len() == 0 {
        0
    } else if s[0] == ':' {
        0
    } else {
        1 + spec_bare_len(s.drop_first())
    }
}

/// The bare host name of a `Host` header value: everything before the
/// first colon, so that a port suffix is discarded.
pub open spec fn spec_bare_host(s: Seq<char>) -> Seq<char> {
    s.take(spec_bare_len(s))
}

proof fn lemma_bare_len(s: Seq<char>, i: int)
    requires
        0 <= i <= s.len(),
        forall|j: int| 0 <= j < i ==> s[j] != ':',
        i == s.len() || s[i] == ':',
    ensures
        spec_bare_len(s) == i,
    decreases i,
{
    if i > 0 {
        lemma_bare_len(s.drop_first(), i - 1);
    }
}

/// Splits a port suffix off a `Host` header value.
pub fn bare_host(host_header: &str) -> (r: &str)
    ensures
        r@ == spec_bare_host(host_header@),
{
    let n = host_header.unicode_len();
    let mut i: usize = 0;
    while i < n
        invariant
            n == host_header@.len(),
            i <= n,
            forall|j: int| 0 <= j < i ==> host_header@[j] != ':',
        decreases n - i,
    {
        if host_header.get_char(i) == ':' {
            proof {
                lemma_bare_len(host_header@, i as int);
            }
            return host_header.substring_char(0, i);
        }
        i += 1;
    }
    proof {
        lemma_bare_len(host_header@, n as int);
    }
    host_header.substring_char(0, n)
}

/// The view of an optional query string.
pub open spec fn query_view(q: Option<&str>) -> Option<Seq<char>> {
    match q {
        Some(s) => Some(s@),
        None => None,
    }
}

/// What rebasing a path and an optional query onto an origin URL yields:
/// `None` when the origin does not parse as an absolute URL or its host is
/// no domain name; otherwise the serialized target URL and that domain.
pub uninterp spec fn rewrite_of(origin: Seq<char>, path: Seq<char>, query: Option<Seq<char>>) -> Option<(Seq<char>, Seq<char>)>;

/// Relies on `url::Url`: `parse` on the origin, `set_path`, `set_query`,
/// `domain`, and the `Display` serialization. All of them compute from
/// their arguments alone, so the outcome is a function of the three
/// arguments, named [`rewrite_of`].
#[verifier::external_body]
fn rewrite_origin(origin: &str, path: &str, query: Option<&str>) -> (r: Option<(String, String)>)
    ensures
        r is Some <==> rewrite_of(origin@, path@, query_view(query)) is Some,
        r matches Some(t) ==> rewrite_of(origin@, path@, query_view(query)) matches Some(s)
            && t.0@ == s.0 && t.1@ == s.1,
{
    let mut u = match url::Url::parse(origin) {
        Ok(u) => u,
        Err(_) => return None,
    };
    u.set_path(path);
    u.set_query(query);
    let domain = match u.domain() {
        Some(d) => d.to_string(),
        None => return None,
    };
    Some((u.to_string(), domain))
}

/// What the dispatcher decides for one inbound request: answer locally, or
/// forward and relay.
pub enum Outcome {
    /// Answer the caller directly with this status and body.
    Local { status: u16, body: String },
    /// Send an outbound request and relay the upstream response: same
    /// method as inbound, empty body, the inbound headers with `Host`
    /// overwritten by the origin's domain.
    Forward { target: String, host_value: String, method: String, headers: Vec<(String, String)> },
}

/// A locally synthesized `missing` answer, deliberately with success
/// status.
pub open spec fn spec_is_missing(r: Outcome) -> bool {
    &&& r matches Outcome::Local { status, body } ==> status == 200 && body@ == "missing"@
    &&& r is Local
}

/// The inbound headers with every `host` header's value overwritten by the
/// origin's domain; all other headers are kept verbatim, in order.
pub open spec fn spec_rewrite_headers(
    hs: Seq<(Seq<char>, Seq<char>)>,
    domain: Seq<char>,
) -> Seq<(Seq<char>, Seq<char>)> {
    hs.map_values(
        |p: (Seq<char>, Seq<char>)|
            if p.0 == "host"@ {
                (p.0, domain)
            } else {
                p
            },
    )
}

fn local_missing() -> (r: Outcome)
    ensures
        spec_is_missing(r),
{
    Outcome::Local { status: 200, body: String::from_str("missing") }
}

fn rewrite_headers(headers: &Vec<(String, String)>, domain: &str) -> (r: Vec<(String, String)>)
    ensures
        r.deep_view() == spec_rewrite_headers(headers.deep_view(), domain@),
{
    let host_key = String::from_str("host");
    let mut out: Vec<(String, String)> = Vec::new();
    let mut i: usize = 0;
    while i < headers.len()
        invariant
            i <= headers@.len(),
            host_key@ == "host"@,
            out.deep_view() =~~= spec_rewrite_headers(headers.deep_view(), domain@).take(i as int),
        decreases headers@.len() - i,
    {
        proof {
            let ghost full = spec_rewrite_headers(headers.deep_view(), domain@);
            assert(full.take(i as int).len() == i as int);
            assert(out@.len() == i as int);
        }
        let (name, value) = &headers[i];
        if *name == host_key {
            out.push((name.clone(), String::from_str(domain)));
        } else {
            out.push((name.clone(), value.clone()));
        }
        proof {
            let ghost full = spec_rewrite_headers(headers.deep_view(), domain@);
            assert(out.deep_view()[i as int] == full[i as int]);
            assert(out.deep_view() =~~= full.take(i + 1));
        }
        i += 1;
    }
    proof {
        assert(spec_rewrite_headers(headers.deep_view(), domain@).take(headers@.len() as int)
            =~~= spec_rewrite_headers(headers.deep_view(), domain@));
    }
    out
}

/// Decides one inbound request: look the bare host up in the map; a miss
/// answers `missing` with success status; a hit rebases the origin URL and,
/// when that yields a domain, forwards with rewritten headers; an origin
/// without a domain answers `missing` too.
pub fn plan_request(
    config: &ConfigMap,
    host_header: &str,
    method: &str,
    path: &str,
    query: Option<&str>,
    headers: &Vec<(String, String)>,
) -> (r: Outcome)
    requires
        config.wf(),
    ensures
        !config.as_map().contains_key(spec_bare_host(host_header@)) ==> spec_is_missing(r),
        config.as_map().contains_key(spec_bare_host(host_header@)) ==> {
            let prof = config.as_map()[spec_bare_host(host_header@)];
            match rewrite_of(prof.origin, path@, query_view(query)) {
                None => spec_is_missing(r),
                Some(t) => r matches Outcome::Forward { target, host_value, method: m, headers: hs }
                    && target@ == t.0 && host_value@ == t.1 && m@ == method@ && hs.deep_view()
                    == spec_rewrite_headers(headers.deep_view(), t.1),
            }
        },
{
    let bare = bare_host(host_header);
    let profile = match config.get(bare) {
        Some(c) => c,
        None => {
            return local_missing();
        },
    };
    match rewrite_origin(profile.origin.as_str(), path, query) {
        None => local_missing(),
        Some((target, domain)) => {
            let headers = rewrite_headers(headers, domain.as_str());
            Outcome::Forward {
                target,
                host_value: domain,
                method: String::from_str(method),
                headers,
            }
        },
    }
}

/// The terminal step once the outbound client has answered.
pub enum FinalStep {
    /// Relay the upstream response unchanged.
    RelayUpstream,
    /// Answer the caller directly with this status and body.
    Respond { status: u16, body: String },
}

/// Decides the terminal step from the outbound client's report: success
/// relays the upstream response unchanged; a failure is answered with the
/// failure's textual description, deliberately with success status.
pub fn settle_upstream(send_error: Option<String>) -> (r: FinalStep)
    ensures
        send_error is None <==> r is RelayUpstream,
        send_error matches Some(e) ==> r matches FinalStep::Respond { status, body } && status
            == 200 && body@ == e@,
{
    match send_error {
        None => FinalStep::RelayUpstream,
        Some(e) => FinalStep::Respond { status: 200, body: e },
    }
}

} // verus!
