//! How captured bodies are stored and read back: their file names, the
//! names stages and origins are stored under, how a stored body with content
//! codings is decoded within a size limit, and what kind of payload a body
//! is shown as. The database and file work happens in the I/O layer.
use std::io::Read;
use std::path::PathBuf;
use vstd::prelude::*;
use vstd::string::*;

use crate::headers::{entries_tokens, find_first_ci, first_header, is_textual, textual};
use crate::model::{ErrorStage, HeaderValues, InterceptorExecutionOrigin, InterceptorKind};
use crate::numbers::{decimal_text, u64_text};
use crate::text::{contains_seq, str_contains, str_eq};

verus! {

/// Which body of a capture.
#[derive(Debug, Clone, Copy, PartialEq, Eq, Structural)]
pub enum BodySide {
    Request,
    Response,
}

/// Where a body's bytes are: in a file, or in memory.
#[derive(Debug, Clone)]
pub enum BodySourceData {
    File(PathBuf),
    Bytes(Vec<u8>),
}

/// A stored body with what is needed to read it as text.
#[derive(Debug, Clone)]
pub struct BodySource {
    pub data: BodySourceData,
    pub path: Option<String>,
    pub stored_size: u64,
    pub content_type: Option<String>,
    pub content_encodings: Vec<String>,
}

/// The largest body shown inline in a capture's detail: 64 KiB.
pub const BODY_DETAIL_LIMIT: u64 = 65536;

/// The name a side is stored under.
pub open spec fn side_name_spec(side: BodySide) -> Seq<char> {
    match side {
        BodySide::Request => "request"@,
        BodySide::Response => "response"@,
    }
}

/// The name of a capture's body file, `{id}-{side}.body`, with `.modified`
/// after it for a replaced body.
pub open spec fn body_file_spec(id: u64, side: BodySide, modified: bool) -> Seq<char> {
    decimal_text(id as nat) + "-"@ + side_name_spec(side) + ".body"@ + if modified {
        ".modified"@
    } else {
        Seq::empty()
    }
}

/// A capture's body files are named by the capture and its side; the
/// modified body's file is the original's name with `.modified` added.
pub proof fn law_body_file_names(id: u64, side: BodySide)
    ensures
        body_file_spec(id, side, true) == body_file_spec(id, side, false) + ".modified"@,
        body_file_spec(id, side, false) == decimal_text(id as nat) + "-"@ + side_name_spec(side) + ".body"@,
{
    assert(body_file_spec(id, side, false) =~= decimal_text(id as nat) + "-"@ + side_name_spec(side) + ".body"@);
}

/// The name of a capture's body file.
pub fn body_file_name(id: u64, side: BodySide, modified: bool) -> (r: String)
    ensures
        r@ == body_file_spec(id, side, modified),
{
    let mut name = u64_text(id);
    name.append("-");
    name.append(
        match side {
            BodySide::Request => "request",
            BodySide::Response => "response",
        },
    );
    name.append(".body");
    if modified {
        name.append(".modified");
    }
    proof {
        reveal_strlit(".modified");
    }
    assert(name@ =~= body_file_spec(id, side, modified));
    name
}

/// The name an error stage is stored under.
pub open spec fn stage_name_spec(stage: ErrorStage) -> Seq<char> {
    match stage {
        ErrorStage::Connect => "connect"@,
        ErrorStage::TlsHandshake => "tls_handshake"@,
        ErrorStage::RequestBody => "request_body"@,
        ErrorStage::Interceptor => "interceptor"@,
        ErrorStage::Upstream => "upstream"@,
        ErrorStage::ResponseBody => "response_body"@,
    }
}

/// The stage a stored name stands for; unknown names mean `connect`.
pub open spec fn parse_stage_spec(s: Seq<char>) -> ErrorStage {
    if s == "tls_handshake"@ {
        ErrorStage::TlsHandshake
    } else if s == "request_body"@ {
        ErrorStage::RequestBody
    } else if s == "interceptor"@ {
        ErrorStage::Interceptor
    } else if s == "upstream"@ {
        ErrorStage::Upstream
    } else if s == "response_body"@ {
        ErrorStage::ResponseBody
    } else {
        ErrorStage::Connect
    }
}

/// The name an error stage is stored under.
pub fn error_stage_name(stage: ErrorStage) -> (r: &'static str)
    ensures
        r@ == stage_name_spec(stage),
{
    match stage {
        ErrorStage::Connect => "connect",
        ErrorStage::TlsHandshake => "tls_handshake",
        ErrorStage::RequestBody => "request_body",
        ErrorStage::Interceptor => "interceptor",
        ErrorStage::Upstream => "upstream",
        ErrorStage::ResponseBody => "response_body",
    }
}

/// The stage a stored name stands for.
pub fn parse_error_stage(s: &str) -> (r: ErrorStage)
    ensures
        r == parse_stage_spec(s@),
{
    if str_eq(s, "tls_handshake") {
        ErrorStage::TlsHandshake
    } else if str_eq(s, "request_body") {
        ErrorStage::RequestBody
    } else if str_eq(s, "interceptor") {
        ErrorStage::Interceptor
    } else if str_eq(s, "upstream") {
        ErrorStage::Upstream
    } else if str_eq(s, "response_body") {
        ErrorStage::ResponseBody
    } else {
        ErrorStage::Connect
    }
}

/// Reading back a stored stage name gives the stage.
pub proof fn law_stage_name_round_trip(stage: ErrorStage)
    ensures
        parse_stage_spec(stage_name_spec(stage)) == stage,
{
    reveal_strlit("connect");
    reveal_strlit("tls_handshake");
    reveal_strlit("request_body");
    reveal_strlit("interceptor");
    reveal_strlit("upstream");
    reveal_strlit("response_body");
    match stage {
        ErrorStage::Connect => {
            assert("connect"@.len() != "tls_handshake"@.len());
            assert("connect"@.len() != "request_body"@.len());
            assert("connect"@.len() != "interceptor"@.len());
            assert("connect"@.len() != "upstream"@.len());
            assert("connect"@.len() != "response_body"@.len());
        },
        ErrorStage::TlsHandshake => {},
        ErrorStage::RequestBody => {
            assert("request_body"@.len() != "tls_handshake"@.len());
        },
        ErrorStage::Interceptor => {
            assert("interceptor"@.len() != "tls_handshake"@.len());
            assert("interceptor"@.len() != "request_body"@.len());
        },
        ErrorStage::Upstream => {
            assert("upstream"@.len() != "tls_handshake"@.len());
            assert("upstream"@.len() != "request_body"@.len());
            assert("upstream"@.len() != "interceptor"@.len());
        },
        ErrorStage::ResponseBody => {
            assert("response_body"@[0] != "tls_handshake"@[0]);
            assert("response_body"@.len() != "request_body"@.len());
            assert("response_body"@.len() != "interceptor"@.len());
            assert("response_body"@.len() != "upstream"@.len());
        },
    }
}

/// The name an interceptor phase is stored under.
pub fn interceptor_phase_name(phase: InterceptorKind) -> (r: &'static str)
    ensures
        r@ == match phase {
            InterceptorKind::Request => "request"@,
            InterceptorKind::Response => "response"@,
        },
{
    match phase {
        InterceptorKind::Request => "request",
        InterceptorKind::Response => "response",
    }
}

/// The name a run origin is stored under.
pub open spec fn origin_name_spec(origin: InterceptorExecutionOrigin) -> Seq<char> {
    match origin {
        InterceptorExecutionOrigin::Saved => "saved"@,
        InterceptorExecutionOrigin::Temporary => "temporary"@,
    }
}

/// The name a run origin is stored under.
pub fn interceptor_origin_name(origin: InterceptorExecutionOrigin) -> (r: &'static str)
    ensures
        r@ == origin_name_spec(origin),
{
    match origin {
        InterceptorExecutionOrigin::Saved => "saved",
        InterceptorExecutionOrigin::Temporary => "temporary",
    }
}

/// The origin a stored name stands for; anything but `temporary` is a saved run.
pub fn parse_interceptor_origin(s: &str) -> (r: InterceptorExecutionOrigin)
    ensures
        r == if s@ == "temporary"@ {
            InterceptorExecutionOrigin::Temporary
        } else {
            InterceptorExecutionOrigin::Saved
        },
{
    if str_eq(s, "temporary") {
        InterceptorExecutionOrigin::Temporary
    } else {
        InterceptorExecutionOrigin::Saved
    }
}

/// Reading back a stored origin name gives the origin.
pub proof fn law_origin_name_round_trip(origin: InterceptorExecutionOrigin)
    ensures
        (if origin_name_spec(origin) == "temporary"@ {
            InterceptorExecutionOrigin::Temporary
        } else {
            InterceptorExecutionOrigin::Saved
        }) == origin,
{
    reveal_strlit("saved");
    reveal_strlit("temporary");
    assert("saved"@.len() != "temporary"@.len());
}

/// A content coding the proxy can decode.
#[derive(Debug, Clone, Copy, PartialEq, Eq, Structural)]
pub enum Coding {
    Gzip,
    Deflate,
    Brotli,
    Zstd,
}

/// The coding a `content-encoding` token names, if the proxy can decode it.
pub open spec fn coding_of(token: Seq<char>) -> Option<Coding> {
    if token == "gzip"@ {
        Some(Coding::Gzip)
    } else if token == "deflate"@ {
        Some(Coding::Deflate)
    } else if token == "br"@ {
        Some(Coding::Brotli)
    } else if token == "zstd"@ {
        Some(Coding::Zstd)
    } else {
        None
    }
}

/// The proxy decodes exactly four codings, each named by one token: `gzip`,
/// `deflate`, `br` and `zstd`; every other token names none.
pub proof fn law_known_codings(token: Seq<char>)
    ensures
        coding_of(token) == Some(Coding::Gzip) <==> token == "gzip"@,
        coding_of(token) == Some(Coding::Deflate) <==> token == "deflate"@,
        coding_of(token) == Some(Coding::Brotli) <==> token == "br"@,
        coding_of(token) == Some(Coding::Zstd) <==> token == "zstd"@,
{
    reveal_strlit("gzip");
    reveal_strlit("deflate");
    reveal_strlit("br");
    reveal_strlit("zstd");
    assert("deflate"@.len() != "gzip"@.len());
    assert("br"@.len() != "gzip"@.len() && "br"@.len() != "deflate"@.len());
    assert("zstd"@[0] != "gzip"@[0]);
    assert("zstd"@.len() != "deflate"@.len() && "zstd"@.len() != "br"@.len());
}

/// The coding a token names.
pub fn coding_for(token: &str) -> (r: Option<Coding>)
    ensures
        r == coding_of(token@),
{
    if str_eq(token, "gzip") {
        Some(Coding::Gzip)
    } else if str_eq(token, "deflate") {
        Some(Coding::Deflate)
    } else if str_eq(token, "br") {
        Some(Coding::Brotli)
    } else if str_eq(token, "zstd") {
        Some(Coding::Zstd)
    } else {
        None
    }
}

/// What decoding `bytes` with `coding` gives when at most `read_limit` bytes
/// are read out, or `None` when the decoder fails.
pub uninterp spec fn decompressed(coding: Coding, bytes: Seq<u8>, read_limit: u64) -> Option<Seq<u8>>;

/// Decodes bytes with `flate2`'s gzip or zlib reader, `brotli`'s reader or
/// `zstd`'s reader, reading at most `read_limit` bytes out (`Read::take`); the
/// result is a function of the bytes and the limit, and never longer than it.
#[verifier::external_body]
fn decompress(coding: Coding, bytes: &[u8], read_limit: u64) -> (r: Option<Vec<u8>>)
    ensures
        match r {
            Some(out) => decompressed(coding, bytes@, read_limit) == Some(out@) && out@.len() <= read_limit,
            None => decompressed(coding, bytes@, read_limit).is_none(),
        },
{
    let mut out = Vec::new();
    let result = match coding {
        Coding::Gzip => flate2::read::GzDecoder::new(bytes).take(read_limit).read_to_end(&mut out),
        Coding::Deflate => flate2::read::ZlibDecoder::new(bytes).take(read_limit).read_to_end(&mut out),
        Coding::Brotli => brotli::Decompressor::new(bytes, 4096).take(read_limit).read_to_end(&mut out),
        Coding::Zstd => zstd::stream::read::Decoder::new(bytes).and_then(|d| d.take(read_limit).read_to_end(&mut out)),
    };
    result.ok().map(|_| out)
}

/// Why a stored body could not be decoded.
#[derive(Debug, Clone, Copy, PartialEq, Eq, Structural)]
pub enum DecodeBodyError {
    /// A decoded stage passed the limit.
    TooLarge,
    /// A coding is unknown or its data is invalid.
    Failed,
}

/// Undoes the codings in `tokens`, last applied first; each stage is read up
/// to one byte past the limit, so that an output over the limit shows.
pub open spec fn decode_chain(current: Seq<u8>, tokens: Seq<Seq<char>>, limit: u64) -> Result<Seq<u8>, DecodeBodyError>
    decreases tokens.len(),
{
    if tokens.len() == 0 {
        Ok(current)
    } else {
        match coding_of(tokens.last()) {
            None => Err(DecodeBodyError::Failed),
            Some(c) => match decompressed(c, current, (limit + 1) as u64) {
                None => Err(DecodeBodyError::Failed),
                Some(d) => if d.len() > limit {
                    Err(DecodeBodyError::TooLarge)
                } else {
                    decode_chain(d, tokens.drop_last(), limit)
                },
            },
        }
    }
}

/// Decoding undoes the codings from the last one applied: no coding leaves
/// the bytes as they are; an unknown last coding fails; and bytes that come
/// out of at least one decoding are never over the limit.
pub proof fn law_decoding_order_and_limit(current: Seq<u8>, tokens: Seq<Seq<char>>, limit: u64)
    ensures
        tokens.len() == 0 ==> decode_chain(current, tokens, limit) == Ok::<Seq<u8>, DecodeBodyError>(current),
        tokens.len() > 0 && coding_of(tokens.last()).is_none() ==> decode_chain(current, tokens, limit) == Err::<
            Seq<u8>,
            DecodeBodyError,
        >(DecodeBodyError::Failed),
        tokens.len() > 0 ==> (decode_chain(current, tokens, limit) matches Ok(d) ==> d.len() <= limit),
    decreases tokens.len(),
{
    if tokens.len() > 0 {
        match coding_of(tokens.last()) {
            Some(c) => match decompressed(c, current, (limit + 1) as u64) {
                Some(d) => if d.len() <= limit {
                    if tokens.len() > 1 {
                        law_decoding_order_and_limit(d, tokens.drop_last(), limit);
                    } else {
                        assert(decode_chain(d, tokens.drop_last(), limit) == Ok::<Seq<u8>, DecodeBodyError>(d));
                    }
                },
                None => {},
            },
            None => {},
        }
    }
}

/// Decodes a stored body by its `content-encoding` value, undoing the codings
/// in reverse order; every stage must stay within `limit` bytes.
pub fn decode_body(bytes: &[u8], encoding: &str, limit: u64) -> (r: Result<Vec<u8>, DecodeBodyError>)
    requires
        limit < u64::MAX,
    ensures
        match r {
            Ok(b) => decode_chain(bytes@, crate::headers::keep_tokens(crate::text::split_on(encoding@, ',')), limit)
                == Ok::<Seq<u8>, DecodeBodyError>(b@),
            Err(e) => decode_chain(bytes@, crate::headers::keep_tokens(crate::text::split_on(encoding@, ',')), limit)
                == Err::<Seq<u8>, DecodeBodyError>(e),
        },
{
    let mut values: Vec<String> = Vec::new();
    values.push(String::from_str(encoding));
    let tokens = crate::headers::value_list_tokens(&values);
    proof {
        assert(values.deep_view() =~= seq![encoding@]);
        let dv = values.deep_view();
        assert(dv.len() == 1);
        assert(dv.last() == encoding@);
        assert(dv.drop_last() =~= Seq::<Seq<char>>::empty());
        assert(crate::headers::values_tokens(dv.drop_last()) =~= Seq::<Seq<char>>::empty());
        assert(crate::headers::values_tokens(dv) =~= crate::headers::keep_tokens(
            crate::text::split_on(encoding@, ','),
        ));
    }
    let mut current: Vec<u8> = crate::text::copy_bytes(bytes);
    let ghost all = tokens.deep_view();
    let mut i: usize = tokens.len();
    assert(all.subrange(0, i as int) == all);
    while i > 0
        invariant
            i <= all.len(),
            all == tokens.deep_view(),
            all == crate::headers::keep_tokens(crate::text::split_on(encoding@, ',')),
            limit < u64::MAX,
            decode_chain(current@, all.subrange(0, i as int), limit) == decode_chain(bytes@, all, limit),
        decreases i,
    {
        let ghost rest = all.subrange(0, i as int);
        assert(rest.drop_last() == all.subrange(0, i - 1));
        assert(rest.last() == tokens[i - 1]@);
        let coding = match coding_for(tokens[i - 1].as_str()) {
            Some(c) => c,
            None => return Err(DecodeBodyError::Failed),
        };
        let decoded = match decompress(coding, current.as_slice(), limit + 1) {
            Some(d) => d,
            None => return Err(DecodeBodyError::Failed),
        };
        if decoded.len() as u64 > limit {
            return Err(DecodeBodyError::TooLarge);
        }
        current = decoded;
        i = i - 1;
    }
    assert(all.subrange(0, 0) =~= Seq::<Seq<char>>::empty());
    Ok(current)
}

/// Whether `serde_json` parses these bytes as one JSON value.
pub uninterp spec fn json_accepts(bytes: Seq<u8>) -> bool;

/// `serde_json::from_slice::<serde_json::Value>` succeeds: a function of the
/// bytes alone.
#[verifier::external_body]
fn parses_as_json(bytes: &[u8]) -> (r: bool)
    ensures
        r == json_accepts(bytes@),
{
    serde_json::from_slice::<serde_json::Value>(bytes).is_ok()
}

/// `std::str::from_utf8` succeeds exactly on valid UTF-8.
#[verifier::external_body]
fn is_utf8(bytes: &[u8]) -> (r: bool)
    ensures
        r == vstd::utf8::valid_utf8(bytes@),
{
    std::str::from_utf8(bytes).is_ok()
}

/// How a stored body is shown in a capture's detail.
#[derive(Debug, Clone, Copy, PartialEq, Eq, Structural)]
pub enum PayloadKind {
    /// Too large to show inline.
    Large,
    Empty,
    /// Parsed as JSON (the content type mentions JSON).
    Json,
    /// Shown as text (a textual content type and valid UTF-8).
    Text,
    Binary,
}

/// The content type a body's headers declare, or empty.
pub open spec fn declared_content_type(headers: Seq<(Seq<char>, Seq<Seq<char>>)>) -> Seq<char> {
    match find_first_ci(headers, "content-type"@) {
        Some(i) => if headers[i].1.len() > 0 {
            headers[i].1[0]
        } else {
            Seq::empty()
        },
        None => Seq::empty(),
    }
}

/// How a body is shown: large bodies by size only, then empty, JSON, text or binary.
pub open spec fn payload_kind_spec(bytes: Seq<u8>, headers: Seq<(Seq<char>, Seq<Seq<char>>)>) -> PayloadKind {
    let content_type = declared_content_type(headers);
    if bytes.len() > BODY_DETAIL_LIMIT {
        PayloadKind::Large
    } else if bytes.len() == 0 {
        PayloadKind::Empty
    } else if contains_seq(content_type, "json"@) && json_accepts(bytes) {
        PayloadKind::Json
    } else if textual(content_type) && vstd::utf8::valid_utf8(bytes) {
        PayloadKind::Text
    } else {
        PayloadKind::Binary
    }
}

/// A UTF-8 body of a size that is shown, whose declared content type
/// mentions XML (and not JSON), is shown as text.
pub proof fn law_xml_bodies_show_as_text(
    bytes: Seq<u8>,
    headers: Seq<(Seq<char>, Seq<Seq<char>>)>,
    before: Seq<char>,
    after: Seq<char>,
)
    requires
        declared_content_type(headers) == before + "xml"@ + after,
        !contains_seq(declared_content_type(headers), "json"@),
        0 < bytes.len() <= BODY_DETAIL_LIMIT,
        vstd::utf8::valid_utf8(bytes),
    ensures
        payload_kind_spec(bytes, headers) == PayloadKind::Text,
{
    crate::headers::law_textual_content_types(before, after);
}

/// How a body of these bytes and headers is shown.
pub fn payload_kind(bytes: &[u8], headers: &HeaderValues) -> (r: PayloadKind)
    ensures
        r == payload_kind_spec(bytes@, headers@),
{
    if bytes.len() as u64 > BODY_DETAIL_LIMIT {
        return PayloadKind::Large;
    }
    if bytes.len() == 0 {
        return PayloadKind::Empty;
    }
    let content_type = match first_header(headers, "content-type") {
        Some(v) => v,
        None => "",
    };
    assert(content_type@ == declared_content_type(headers@)) by {
        reveal_strlit("");
    }
    if str_contains(content_type, "json") && parses_as_json(bytes) {
        return PayloadKind::Json;
    }
    if is_textual(content_type) && is_utf8(bytes) {
        return PayloadKind::Text;
    }
    PayloadKind::Binary
}

} // verus!
