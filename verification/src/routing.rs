//! Where a proxied request goes: which authority it addresses, whether it is
//! the local download of the proxy's CA certificate, and whether it is
//! captured into the active Session or bypassed, and why.
use vstd::prelude::*;
use vstd::string::*;

use crate::headers::{ci_eq, eq_ignore_ascii_case};
use crate::http_syntax::{authority_host, parse_authority_host, parse_uri, uri_parts};
use crate::model::{HeaderValues, RequestData, SessionMetadata};
use crate::text::str_eq;

verus! {

/// Whether a header is a `Host` header (up to ASCII case) with a value.
pub open spec fn host_with_value(e: (Seq<char>, Seq<Seq<char>>)) -> bool {
    ci_eq(e.0, "host"@) && e.1.len() > 0
}

/// The index of the first `Host` header that has a value.
pub open spec fn first_host(s: Seq<(Seq<char>, Seq<Seq<char>>)>) -> Option<int>
    decreases s.len(),
{
    if s.len() == 0 {
        None
    } else {
        match first_host(s.drop_last()) {
            Some(i) => Some(i),
            None => if host_with_value(s.last()) {
                Some(s.len() - 1)
            } else {
                None
            },
        }
    }
}

/// The authority a request addresses: its URI's authority, else the first
/// value of its first `Host` header, else empty.
pub open spec fn routing_authority_spec(uri: Seq<char>, headers: Seq<(Seq<char>, Seq<Seq<char>>)>) -> Seq<char> {
    match uri_parts(uri) {
        Some((_, _, Some(a))) => a,
        _ => match first_host(headers) {
            Some(i) => headers[i].1[0],
            None => Seq::empty(),
        },
    }
}

/// A request is routed by the authority its URI names; only without one does
/// its first `Host` header that has a value decide; with neither, the
/// authority is empty.
pub proof fn law_routing_authority(uri: Seq<char>, headers: Seq<(Seq<char>, Seq<Seq<char>>)>)
    ensures
        uri_parts(uri) matches Some((_, _, Some(a))) ==> routing_authority_spec(uri, headers) == a,
        first_host(headers) matches Some(i) ==> 0 <= i < headers.len() && host_with_value(headers[i]) && forall|k: int|
            0 <= k < i ==> !host_with_value(#[trigger] headers[k]),
        first_host(headers).is_none() ==> forall|k: int| 0 <= k < headers.len() ==> !host_with_value(#[trigger] headers[k]),
        !(uri_parts(uri) matches Some((_, _, Some(_)))) && first_host(headers).is_none() ==> routing_authority_spec(
            uri,
            headers,
        ) == Seq::<char>::empty(),
    decreases headers.len(),
{
    if headers.len() > 0 {
        let init = headers.drop_last();
        law_routing_authority(uri, init);
        assert forall|k: int| 0 <= k < init.len() implies init[k] == headers[k] by {}
    }
}

proof fn lemma_first_host_prefix(s: Seq<(Seq<char>, Seq<Seq<char>>)>, i: int)
    requires
        0 <= i < s.len(),
        first_host(s.subrange(0, i)).is_none(),
    ensures
        first_host(s.subrange(0, i + 1)) == if host_with_value(s[i]) {
            Some(i)
        } else {
            None::<int>
        },
{
    let t = s.subrange(0, i + 1);
    assert(t.drop_last() == s.subrange(0, i));
}

proof fn lemma_first_host_found(s: Seq<(Seq<char>, Seq<Seq<char>>)>, k: int, i: int)
    requires
        0 <= i <= k <= s.len(),
        first_host(s.subrange(0, i)) == Some(i - 1),
    ensures
        first_host(s.subrange(0, k)) == Some(i - 1),
    decreases k - i,
{
    if k > i {
        lemma_first_host_found(s, k - 1, i);
        let t = s.subrange(0, k);
        assert(t.drop_last() == s.subrange(0, k - 1));
    }
}

/// The first value of the first `Host` header that has one.
fn first_host_value(headers: &HeaderValues) -> (r: Option<String>)
    ensures
        match first_host(headers@) {
            Some(i) => r.is_some() && r.unwrap()@ == headers@[i].1[0],
            None => r.is_none(),
        },
{
    let n = headers.len();
    let mut i: usize = 0;
    while i < n
        invariant
            n == headers@.len(),
            i <= n,
            first_host(headers@.subrange(0, i as int)).is_none(),
        decreases n - i,
    {
        proof {
            lemma_first_host_prefix(headers@, i as int);
        }
        let values = headers.value_at(i);
        if eq_ignore_ascii_case(headers.key_at(i).as_str(), "host") && values.len() > 0 {
            assert(values[0]@ == headers@[i as int].1[0]);
            proof {
                lemma_first_host_found(headers@, n as int, i + 1);
                assert(headers@.subrange(0, n as int) == headers@);
            }
            return Some(values[0].clone());
        }
        i = i + 1;
    }
    assert(headers@.subrange(0, n as int) == headers@);
    None
}

/// The authority a request addresses.
pub fn routing_authority(request: &RequestData) -> (r: String)
    ensures
        r@ == routing_authority_spec(request.uri@, request.headers@),
{
    match parse_uri(request.uri.as_str()) {
        Some(parts) => match parts.authority {
            Some(a) => return a,
            None => {},
        },
        None => {},
    }
    match first_host_value(&request.headers) {
        Some(v) => v,
        None => String::new(),
    }
}

/// Whether a request is the local download of the proxy's CA certificate:
/// `GET /ca.crt` addressed to host `proxy.crab`.
pub open spec fn ca_download_spec(request: RequestData) -> bool {
    request.method@ == "GET"@ && match uri_parts(request.uri@) {
        Some((path, host, _)) => path == "/ca.crt"@ && (host == Some("proxy.crab"@) || authority_host(
            routing_authority_spec(request.uri@, request.headers@),
        ) == Some("proxy.crab"@)),
        None => false,
    }
}

/// Only a `GET` of the path `/ca.crt` on the proxy's own host is the CA
/// download; a request with another method or another path never is.
pub proof fn law_ca_download_is_a_get_of_the_certificate(request: RequestData)
    ensures
        ca_download_spec(request) ==> request.method@ == "GET"@,
        ca_download_spec(request) ==> (uri_parts(request.uri@) matches Some((path, _, _)) && path == "/ca.crt"@),
        request.method@ != "GET"@ ==> !ca_download_spec(request),
{
}

/// Whether a request is the local download of the proxy's CA certificate.
pub fn is_ca_download(request: &RequestData) -> (r: bool)
    ensures
        r == ca_download_spec(*request),
{
    if !str_eq(request.method.as_str(), "GET") {
        return false;
    }
    let parts = match parse_uri(request.uri.as_str()) {
        Some(p) => p,
        None => return false,
    };
    if !str_eq(parts.path.as_str(), "/ca.crt") {
        return false;
    }
    match &parts.host {
        Some(h) => {
            if str_eq(h.as_str(), "proxy.crab") {
                return true;
            }
        },
        None => {},
    }
    let authority = routing_authority(request);
    match parse_authority_host(authority.as_str()) {
        Some(h) => str_eq(h.as_str(), "proxy.crab"),
        None => false,
    }
}

/// Where a request goes.
#[derive(Debug, Clone, PartialEq, Eq)]
pub enum RouteDecision {
    /// Captured into this Session.
    Session(SessionMetadata),
    /// Passed through uncaptured, for this reason.
    Bypass(String),
}

/// What the configured routing script said, if there is one.
#[derive(Debug, Clone, PartialEq, Eq)]
pub enum RoutingOutcome {
    /// The routing configuration could not be loaded.
    ConfigError,
    /// No routing script is selected.
    NoScript,
    /// The script ran and returned nil, `false` or `true`.
    Returned(Option<bool>),
    /// The script failed or returned something else.
    ScriptError,
}

/// The reason recorded for a bypass, given what routing found.
pub open spec fn route_spec(outcome: RoutingOutcome, active: Option<SessionMetadata>) -> Result<
    SessionMetadata,
    Seq<char>,
> {
    match outcome {
        RoutingOutcome::ConfigError => Err("routing_script_error"@),
        RoutingOutcome::ScriptError => Err("routing_script_error"@),
        RoutingOutcome::Returned(None) => Err("script_bypass"@),
        RoutingOutcome::Returned(Some(false)) => Err("script_bypass"@),
        _ => match active {
            Some(s) => Ok(s),
            None => Err("no_active_session"@),
        },
    }
}

/// A routing script that returns nil bypasses the request exactly as one
/// that returns `false`, with reason `script_bypass`, whatever Session is
/// active; only a script that returns `true`, or no script at all, sends a
/// request to a Session, and then to the active one.
pub proof fn law_nil_routes_like_false(active: Option<SessionMetadata>, outcome: RoutingOutcome)
    ensures
        route_spec(RoutingOutcome::Returned(None), active) == route_spec(RoutingOutcome::Returned(Some(false)), active),
        route_spec(RoutingOutcome::Returned(Some(false)), active) == Err::<SessionMetadata, Seq<char>>(
            "script_bypass"@,
        ),
        route_spec(outcome, active) matches Ok(s) ==> active == Some(s) && (outcome == RoutingOutcome::NoScript
            || outcome == RoutingOutcome::Returned(Some(true))),
        active matches Some(s) ==> ((outcome == RoutingOutcome::NoScript || outcome == RoutingOutcome::Returned(
            Some(true),
        )) ==> route_spec(outcome, active) == Ok::<SessionMetadata, Seq<char>>(s)),
{
}

/// Routes a request: a routing script that returns `true`, or no routing
/// script at all, sends it to the active Session; nil or `false` bypass it;
/// a failing script or configuration bypasses it as an error; and without an
/// active Session it is bypassed.
pub fn decide_route(outcome: RoutingOutcome, active: Option<SessionMetadata>) -> (r: RouteDecision)
    ensures
        match route_spec(outcome, active) {
            Ok(s) => r == RouteDecision::Session(s),
            Err(reason) => r matches RouteDecision::Bypass(why) && why@ == reason,
        },
{
    match outcome {
        RoutingOutcome::ConfigError => RouteDecision::Bypass(String::from_str("routing_script_error")),
        RoutingOutcome::ScriptError => RouteDecision::Bypass(String::from_str("routing_script_error")),
        RoutingOutcome::Returned(None) => RouteDecision::Bypass(String::from_str("script_bypass")),
        RoutingOutcome::Returned(Some(false)) => RouteDecision::Bypass(String::from_str("script_bypass")),
        _ => match active {
            Some(s) => RouteDecision::Session(s),
            None => RouteDecision::Bypass(String::from_str("no_active_session")),
        },
    }
}

} // verus!
