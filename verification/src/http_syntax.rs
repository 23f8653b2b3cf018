//! What the HTTP stack accepts as a method, URI, header name and header value.
//! The checks themselves are made by `hyper`; the few that its source states in
//! a line are stated here too.
use vstd::prelude::*;
use vstd::string::*;

verus! {

/// An RFC 9110 `tchar`: the bytes a method token may contain.
pub open spec fn tchar(b: u8) -> bool {
    (48 <= b && b <= 57) || (97 <= b && b <= 122) || (65 <= b && b <= 90) || b == 33 || b == 35
        || b == 36 || b == 37 || b == 38 || b == 39 || b == 42 || b == 43 || b == 45 || b == 46
        || b == 94 || b == 95 || b == 96 || b == 124 || b == 126
}

/// A method `hyper` accepts: a non-empty token.
pub open spec fn method_accepted(bytes: Seq<u8>) -> bool {
    bytes.len() > 0 && forall|i: int| 0 <= i < bytes.len() ==> tchar(#[trigger] bytes[i])
}

/// A byte allowed in a header value.
pub open spec fn header_value_byte(b: u8) -> bool {
    (b >= 32 && b != 127) || b == 9
}

/// A header value `hyper` accepts.
pub open spec fn header_value_accepted(bytes: Seq<u8>) -> bool {
    forall|i: int| 0 <= i < bytes.len() ==> header_value_byte(#[trigger] bytes[i])
}

/// What `hyper` parses a URI text into: its path, its host and its
/// authority, or `None` when the text is not a URI.
pub uninterp spec fn uri_parts(text: Seq<char>) -> Option<(Seq<char>, Option<Seq<char>>, Option<Seq<char>>)>;

/// Whether `hyper` parses these characters as a URI.
pub open spec fn uri_accepted(text: Seq<char>) -> bool {
    uri_parts(text).is_some()
}

/// The host `hyper` reads from an authority text, or `None` when the text is
/// not an authority.
pub uninterp spec fn authority_host(text: Seq<char>) -> Option<Seq<char>>;

/// A header name `hyper` accepts: 1 to 65535 token bytes.
pub open spec fn header_name_accepted(bytes: Seq<u8>) -> bool {
    1 <= bytes.len() <= 65535 && forall|i: int| 0 <= i < bytes.len() ==> tchar(#[trigger] bytes[i])
}

/// What the HTTP stack accepts: methods and header names are non-empty
/// tokens, so a space, a comma, a control byte or DEL in one is refused, and a
/// header name is at most 65535 bytes; a header value may hold any visible
/// byte, space and tab, but never a line break, a NUL or DEL.
pub proof fn law_http_syntax(bytes: Seq<u8>, i: int)
    ensures
        bytes.len() == 0 ==> !method_accepted(bytes) && !header_name_accepted(bytes),
        bytes.len() > 65535 ==> !header_name_accepted(bytes),
        0 <= i < bytes.len() && (bytes[i] == 32 || bytes[i] == 44 || bytes[i] < 32 || bytes[i] == 127)
            ==> !method_accepted(bytes) && !header_name_accepted(bytes),
        0 <= i < bytes.len() && (bytes[i] == 10 || bytes[i] == 13 || bytes[i] == 0 || bytes[i] == 127)
            ==> !header_value_accepted(bytes),
        (forall|k: int| 0 <= k < bytes.len() ==> (#[trigger] bytes[k] >= 32 && bytes[k] != 127) || bytes[k] == 9)
            ==> header_value_accepted(bytes),
{
    if 0 <= i < bytes.len() {
        let b = bytes[i];
        if b == 32 || b == 44 || b < 32 || b == 127 {
            assert(!tchar(b));
        }
        if b == 10 || b == 13 || b == 0 || b == 127 {
            assert(!header_value_byte(b));
        }
    }
}

/// `hyper::Method::from_bytes`: accepts exactly the non-empty tokens. On
/// rejection the error is `hyper`'s message; its text is not stated.
#[verifier::external_body]
pub(crate) fn check_method(method: &str) -> (r: Result<(), String>)
    ensures
        r.is_ok() == method_accepted(method.spec_bytes()),
{
    hyper::Method::from_bytes(method.as_bytes()).map(|_| ()).map_err(|error| error.to_string())
}

/// `str::parse::<hyper::Uri>`: whether the text parses as a URI, a function of
/// the text alone. On rejection the error is `hyper`'s message; its text is not stated.
#[verifier::external_body]
pub(crate) fn check_uri(uri: &str) -> (r: Result<(), String>)
    ensures
        r.is_ok() == uri_accepted(uri@),
{
    uri.parse::<hyper::Uri>().map(|_| ()).map_err(|error| error.to_string())
}

/// The path, host and authority of a parsed URI.
pub struct UriParts {
    pub path: String,
    pub host: Option<String>,
    pub authority: Option<String>,
}

/// `str::parse::<hyper::Uri>` followed by its `path`, `host` and `authority`
/// accessors: the parts, as `hyper` reads them, are a function of the text alone.
#[verifier::external_body]
pub(crate) fn parse_uri(uri: &str) -> (r: Option<UriParts>)
    ensures
        match r {
            Some(p) => uri_parts(uri@) == Some((p.path@, match p.host {
                Some(h) => Some(h@),
                None => None,
            }, match p.authority {
                Some(a) => Some(a@),
                None => None,
            })),
            None => uri_parts(uri@).is_none(),
        },
{
    uri.parse::<hyper::Uri>().ok().map(|u| UriParts {
        path: u.path().to_string(),
        host: u.host().map(|h| h.to_string()),
        authority: u.authority().map(|a| a.to_string()),
    })
}

/// `str::parse::<hyper::http::uri::Authority>` followed by `host`: the host is
/// a function of the text alone.
#[verifier::external_body]
pub(crate) fn parse_authority_host(text: &str) -> (r: Option<String>)
    ensures
        match r {
            Some(h) => authority_host(text@) == Some(h@),
            None => authority_host(text@).is_none(),
        },
{
    text.parse::<hyper::http::uri::Authority>().ok().map(|a| a.host().to_string())
}

/// `hyper::header::HeaderName::from_bytes`: accepts exactly 1 to 65535 token
/// bytes. On rejection the error is `hyper`'s message; its text is not stated.
#[verifier::external_body]
pub(crate) fn check_header_name(name: &str) -> (r: Result<(), String>)
    ensures
        r.is_ok() == header_name_accepted(name.spec_bytes()),
{
    hyper::header::HeaderName::from_bytes(name.as_bytes()).map(|_| ()).map_err(
        |error| error.to_string(),
    )
}

/// `hyper::header::HeaderValue::from_str`: accepts exactly the strings whose
/// bytes are all visible ASCII, tab, or at least 128. On rejection the error is
/// `hyper`'s message; its text is not stated.
#[verifier::external_body]
pub(crate) fn check_header_value(value: &str) -> (r: Result<(), String>)
    ensures
        r.is_ok() == header_value_accepted(value.spec_bytes()),
{
    hyper::header::HeaderValue::from_str(value).map(|_| ()).map_err(|error| error.to_string())
}

/// A header name and value a script may write: the name is checked first.
pub fn validate_header_input(name: &str, value: &str) -> (r: Result<(), String>)
    ensures
        r.is_ok() == (header_name_accepted(name.spec_bytes()) && header_value_accepted(
            value.spec_bytes(),
        )),
{
    check_header_name(name)?;
    check_header_value(value)?;
    Ok(())
}

} // verus!
