//! Replaying a request into a Session: what a replay request holds, the
//! checks it must pass before it is sent, and how its failures read.
use vstd::prelude::*;
use vstd::string::*;

use crate::http_syntax::{
    check_header_name, check_header_value, check_method, check_uri, header_name_accepted, header_value_accepted,
    method_accepted, uri_accepted,
};
use crate::storage::BodySide;
use crate::text::{is_prefix, lower, str_starts_with, str_trim, to_ascii_lowercase, trim};

verus! {

/// The body of a replayed request.
#[derive(Debug, Clone, PartialEq, Eq)]
pub enum ReplayBody {
    Text { text: String },
    BodyRef { session_id: u64, log_id: u64, side: BodySide },
    Asset { asset_id: String },
}

/// A request to replay.
#[derive(Debug, Clone)]
pub struct ReplayRequest {
    pub method: String,
    pub url: String,
    pub headers: Vec<(String, String)>,
    pub body: Option<ReplayBody>,
}

/// Why a replay was refused or failed.
#[derive(Debug, Clone, PartialEq, Eq)]
pub enum ReplayError {
    SessionNotFound,
    ProxyNotRunning,
    BodyNotFound,
    AssetNotFound,
    Invalid(String),
    /// The replay failed on the way; the failure's text.
    Internal(String),
}

impl ReplayError {
    /// The text of the error, as it is shown.
    pub fn message(&self) -> (r: String)
        ensures
            r@ == match *self {
                ReplayError::SessionNotFound => "session not found or archived"@,
                ReplayError::ProxyNotRunning => "proxy is not running"@,
                ReplayError::BodyNotFound => "referenced capture body not found"@,
                ReplayError::AssetNotFound => "referenced asset not found"@,
                ReplayError::Invalid(m) => "invalid replay request: "@ + m@,
                ReplayError::Internal(m) => "replay failed: "@ + m@,
            },
    {
        match self {
            ReplayError::SessionNotFound => String::from_str("session not found or archived"),
            ReplayError::ProxyNotRunning => String::from_str("proxy is not running"),
            ReplayError::BodyNotFound => String::from_str("referenced capture body not found"),
            ReplayError::AssetNotFound => String::from_str("referenced asset not found"),
            ReplayError::Invalid(m) => {
                let mut text = String::from_str("invalid replay request: ");
                text.append(m.as_str());
                text
            },
            ReplayError::Internal(m) => {
                let mut text = String::from_str("replay failed: ");
                text.append(m.as_str());
                text
            },
        }
    }
}

/// Whether a URL is absolute `http` or `https`.
pub open spec fn http_url(url: Seq<char>) -> bool {
    is_prefix("http://"@, url) || is_prefix("https://"@, url)
}

/// The checks a replay request passes before its body is fetched: the Session
/// exists, the method is not blank, and the URL is absolute `http(s)`.
pub fn check_replay_request(session_known: bool, request: &ReplayRequest) -> (r: Result<(), ReplayError>)
    ensures
        r.is_ok() <==> session_known && trim(request.method@).len() > 0 && http_url(request.url@),
        !session_known ==> r == Err::<(), ReplayError>(ReplayError::SessionNotFound),
        session_known && trim(request.method@).len() == 0 ==> (r matches Err(ReplayError::Invalid(m)) && m@
            == "method must not be empty"@),
        session_known && trim(request.method@).len() > 0 && !http_url(request.url@) ==> (r matches Err(
            ReplayError::Invalid(m),
        ) && m@ == "url must be an absolute http(s) URL"@),
{
    if !session_known {
        return Err(ReplayError::SessionNotFound);
    }
    if str_trim(request.method.as_str()).unicode_len() == 0 {
        return Err(ReplayError::Invalid(String::from_str("method must not be empty")));
    }
    if !(str_starts_with(request.url.as_str(), "http://") || str_starts_with(request.url.as_str(), "https://")) {
        return Err(ReplayError::Invalid(String::from_str("url must be an absolute http(s) URL")));
    }
    Ok(())
}

/// The request line of a replay is built only when `hyper` accepts both its
/// method and its URL; otherwise the builder refuses it as a whole.
pub fn check_replay_target(request: &ReplayRequest) -> (r: Result<(), ReplayError>)
    ensures
        r.is_ok() == (method_accepted(vstd::utf8::encode_utf8(request.method@)) && uri_accepted(request.url@)),
        r matches Err(e) ==> (e matches ReplayError::Invalid(m) && m@ == "request builder rejected inputs"@),
{
    let method_ok = check_method(request.method.as_str()).is_ok();
    let uri_ok = check_uri(request.url.as_str()).is_ok();
    if method_ok && uri_ok {
        Ok(())
    } else {
        Err(ReplayError::Invalid(String::from_str("request builder rejected inputs")))
    }
}

/// Whether a header pair of a replay request is one `hyper` accepts.
pub open spec fn header_pair_ok(pair: (String, String)) -> bool {
    header_name_accepted(vstd::utf8::encode_utf8(pair.0@)) && header_value_accepted(
        vstd::utf8::encode_utf8(pair.1@),
    )
}

/// The error for the first header pair that is not accepted.
pub open spec fn header_pair_error(pair: (String, String)) -> Seq<char> {
    if !header_name_accepted(vstd::utf8::encode_utf8(pair.0@)) {
        "invalid header name: "@ + pair.0@
    } else {
        "invalid value for header "@ + lower(pair.0@)
    }
}

/// The header list of a replay request passes when every name and value is
/// one `hyper` accepts; the first bad pair is reported by its name (a bad
/// value by the header's normalized, lowercase name).
pub fn check_replay_headers(headers: &Vec<(String, String)>) -> (r: Result<(), ReplayError>)
    ensures
        r.is_ok() == forall|i: int| 0 <= i < headers@.len() ==> header_pair_ok(#[trigger] headers@[i]),
        r matches Err(e) ==> exists|i: int|
            0 <= i < headers@.len() && !header_pair_ok(#[trigger] headers@[i]) && (forall|k: int|
                0 <= k < i ==> header_pair_ok(headers@[k])) && (e matches ReplayError::Invalid(m) && m@
                == header_pair_error(headers@[i])),
{
    let n = headers.len();
    let mut i: usize = 0;
    while i < n
        invariant
            n == headers@.len(),
            i <= n,
            forall|k: int| 0 <= k < i ==> header_pair_ok(#[trigger] headers@[k]),
        decreases n - i,
    {
        let (name, value) = (&headers[i].0, &headers[i].1);
        match check_header_name(name.as_str()) {
            Ok(()) => {},
            Err(_) => {
                let mut m = String::from_str("invalid header name: ");
                m.append(name.as_str());
                assert(!header_pair_ok(headers@[i as int]));
                return Err(ReplayError::Invalid(m));
            },
        }
        match check_header_value(value.as_str()) {
            Ok(()) => {},
            Err(_) => {
                let mut m = String::from_str("invalid value for header ");
                let lowered = to_ascii_lowercase(name.as_str());
                m.append(lowered.as_str());
                assert(!header_pair_ok(headers@[i as int]));
                return Err(ReplayError::Invalid(m));
            },
        }
        assert(header_pair_ok(headers@[i as int]));
        i = i + 1;
    }
    Ok(())
}

} // verus!
