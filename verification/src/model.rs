//! The records the capture runtime stores and exchanges.
use vstd::prelude::*;

use crate::strmap::StrMap;

verus! {

/// Header values by header name, in ascending name order.
pub type HeaderValues = StrMap<Vec<String>>;

/// Request tags by key, in ascending key order.
pub type RequestTags = StrMap<String>;

/// The most interceptors one Session may chain per phase.
pub const MAX_SESSION_INTERCEPTORS_PER_KIND: usize = 12;

/// Global proxy configuration of a workspace.
#[derive(Debug, Clone, PartialEq, Eq)]
pub struct AppConfig {
    pub proxy_host: String,
    pub proxy_port: u16,
    pub api_port: u16,
    pub routing_script_name: Option<String>,
    pub active_session_id: Option<u64>,
}

/// The host the proxy listens on unless configured otherwise.
pub fn default_proxy_host() -> (r: String)
    ensures
        r@ == "0.0.0.0"@,
{
    String::from_str("0.0.0.0")
}

/// The proxy port unless configured otherwise.
pub fn default_proxy_port() -> (r: u16)
    ensures
        r == 8089,
{
    8089
}

/// The management API port unless configured otherwise.
pub fn default_api_port() -> (r: u16)
    ensures
        r == 18089,
{
    18089
}

impl Default for AppConfig {
    fn default() -> (r: Self)
        ensures
            r.proxy_host@ == "0.0.0.0"@,
            r.proxy_port == 8089,
            r.api_port == 18089,
            r.routing_script_name.is_none(),
            r.active_session_id.is_none(),
    {
        AppConfig {
            proxy_host: default_proxy_host(),
            proxy_port: default_proxy_port(),
            api_port: default_api_port(),
            routing_script_name: None,
            active_session_id: None,
        }
    }
}

/// A built-in column, or a column script, that a filter matches against.
#[derive(Debug, Clone, PartialEq, Eq)]
pub enum FilterColumn {
    Method,
    Uri,
    Code,
    Source,
    Stage,
    Script { script_name: String },
}

/// How a Session's filter input is applied.
#[derive(Debug, Clone, PartialEq, Eq)]
pub enum FilterOption {
    Column { column: FilterColumn, regex: bool },
    Script { script_name: String },
}

/// The filter of a Session's capture list.
#[derive(Debug, Clone, PartialEq, Eq)]
pub struct SessionFilter {
    pub option: Option<FilterOption>,
    pub input: String,
}

impl Default for SessionFilter {
    fn default() -> (r: Self)
        ensures
            r.option.is_none(),
            r.input@ == Seq::<char>::empty(),
    {
        SessionFilter { option: None, input: String::new() }
    }
}

/// One entry of a Session's interceptor chain.
#[derive(Debug, Clone, PartialEq, Eq)]
pub struct SessionInterceptor {
    pub name: String,
    pub enabled: bool,
}

/// The request and response interceptor chains of a Session.
#[derive(Debug, Clone, PartialEq, Eq)]
pub struct SessionInterceptors {
    pub request: Vec<SessionInterceptor>,
    pub response: Vec<SessionInterceptor>,
}

impl Default for SessionInterceptors {
    fn default() -> (r: Self)
        ensures
            r.request@.len() == 0,
            r.response@.len() == 0,
    {
        SessionInterceptors { request: Vec::new(), response: Vec::new() }
    }
}

/// Identity and labels of a Session.
#[derive(Debug, Clone, PartialEq, Eq)]
pub struct SessionMetadata {
    pub id: u64,
    pub name: String,
    pub created_at: u64,
    pub description: Option<String>,
    pub tags: Vec<String>,
}

/// A named Lua script.
#[derive(Debug, Clone, PartialEq, Eq)]
pub struct Script {
    pub name: String,
    pub content: String,
}

/// What a script is used for.
#[derive(Debug, Clone, Copy, PartialEq, Eq, Structural)]
pub enum ScriptKind {
    Column,
    Filter,
    Routing,
    RequestInterceptor,
    ResponseInterceptor,
}

/// The phase an interceptor runs in.
#[derive(Debug, Clone, Copy, PartialEq, Eq, Structural)]
pub enum InterceptorKind {
    Request,
    Response,
}

/// A chain entry together with whether its script exists.
#[derive(Debug, Clone, PartialEq, Eq)]
pub struct ResolvedSessionInterceptor {
    pub name: String,
    pub enabled: bool,
    pub valid: bool,
}

/// Both resolved chains of a Session.
#[derive(Debug, Clone, PartialEq, Eq)]
pub struct ResolvedSessionInterceptors {
    pub session_id: u64,
    pub request: Vec<ResolvedSessionInterceptor>,
    pub response: Vec<ResolvedSessionInterceptor>,
}

/// An interceptor script with the number of chains that use it.
#[derive(Debug, Clone, PartialEq, Eq)]
pub struct InterceptorLibraryItem {
    pub name: String,
    pub usage_count: usize,
}

/// Where a capture stands.
#[derive(Debug, Clone, Copy, PartialEq, Eq, Structural)]
pub enum CaptureOutcome {
    InProgress,
    Success,
    Failed,
    Tunneled,
}

/// The step of a capture at which an error happened.
#[derive(Debug, Clone, Copy, PartialEq, Eq, Structural)]
pub enum ErrorStage {
    Connect,
    TlsHandshake,
    RequestBody,
    Interceptor,
    Upstream,
    ResponseBody,
}

/// A diagnostic failure recorded on a capture.
#[derive(Debug, Clone, PartialEq, Eq)]
pub struct CaptureError {
    pub stage: ErrorStage,
    pub kind: String,
    pub message: String,
}

/// The request line, headers and tags of a capture.
#[derive(Debug, Clone, PartialEq, Eq)]
pub struct RequestData {
    pub method: String,
    pub uri: String,
    pub version: String,
    pub headers: HeaderValues,
    pub tags: RequestTags,
}

/// The status line and headers of a capture's response.
#[derive(Debug, Clone, PartialEq, Eq)]
pub struct ResponseData {
    pub status: u16,
    pub version: String,
    pub headers: HeaderValues,
}

/// Where a forwarded body came from.
#[derive(Debug, Clone, PartialEq, Eq)]
pub enum BodySourceType {
    Original,
    String { content: String },
    Asset { asset_id: String },
}

impl Default for BodySourceType {
    fn default() -> (r: Self)
        ensures
            r == BodySourceType::Original,
    {
        BodySourceType::Original
    }
}

/// The request as an interceptor found it.
#[derive(Debug, Clone, PartialEq, Eq)]
pub struct RequestInterceptorSnapshot {
    pub method: String,
    pub uri: String,
    pub version: String,
    pub headers: HeaderValues,
    pub body: BodySourceType,
}

/// The response as an interceptor found it.
#[derive(Debug, Clone, PartialEq, Eq)]
pub struct ResponseInterceptorSnapshot {
    pub status: u16,
    pub version: String,
    pub headers: HeaderValues,
    pub body: BodySourceType,
}

/// One change an interceptor made, in the order it was made.
#[derive(Debug, Clone, PartialEq, Eq)]
pub enum Modification {
    Snapshot {
        request: Option<RequestInterceptorSnapshot>,
        response: Option<ResponseInterceptorSnapshot>,
    },
    MethodSet { method: String },
    UriSet { uri: String },
    StatusSet { status: u16 },
    HeaderAppend { name: String, value: String },
    HeaderSet { name: String, value: String },
    HeaderRemove { name: String, values: Vec<String> },
    BodyReplaceString { content: String },
    BodyReplaceFile { path: String },
    BodyReplaceAsset { asset_id: String },
    TagSet { key: String, value: String },
}

/// Whether an interceptor run came from a saved chain or a temporary script.
#[derive(Debug, Clone, Copy, PartialEq, Eq, Structural)]
pub enum InterceptorExecutionOrigin {
    Saved,
    Temporary,
}

/// A stored interceptor run.
#[derive(Debug, Clone, PartialEq, Eq)]
pub struct InterceptorExecution {
    pub execution_id: u64,
    pub origin: InterceptorExecutionOrigin,
    pub completed: bool,
    pub phase: InterceptorKind,
    pub position: usize,
    pub name: String,
    pub script_hash: String,
    pub content: String,
    pub modifications: Vec<Modification>,
    pub error: Option<String>,
}

/// An interceptor run about to be stored.
#[derive(Debug, Clone, PartialEq, Eq)]
pub struct InterceptorRun {
    pub origin: InterceptorExecutionOrigin,
    pub completed: bool,
    pub phase: InterceptorKind,
    pub position: usize,
    pub name: String,
    pub script_hash: String,
    pub content: String,
    pub modifications: Vec<Modification>,
    pub error: Option<String>,
}

/// What SHA-256 gives for these bytes.
pub uninterp spec fn sha256_digest(bytes: Seq<u8>) -> Seq<u8>;

/// `sha2::Sha256::digest`: the 32-byte digest of the bytes, which depends on
/// the bytes alone.
#[verifier::external_body]
fn sha256(bytes: &[u8]) -> (r: Vec<u8>)
    ensures
        r@ == sha256_digest(bytes@),
        r@.len() == 32,
{
    <sha2::Sha256 as sha2::Digest>::digest(bytes).to_vec()
}

/// The hash a script's content is recorded under: the lowercase hexadecimal
/// SHA-256 of its UTF-8 bytes.
pub fn script_content_hash(content: &str) -> (r: String)
    ensures
        r@ == crate::wire::hex_encode(sha256_digest(vstd::utf8::encode_utf8(content@))),
{
    let digest = sha256(content.as_bytes());
    crate::wire::encode_hex(digest.as_slice())
}

/// A row of a Session's capture list.
#[derive(Debug, Clone, PartialEq, Eq)]
pub struct CaptureSummary {
    pub id: u64,
    pub session_id: u64,
    pub source: String,
    pub request: RequestData,
    pub response: Option<ResponseData>,
    pub outcome: CaptureOutcome,
    pub stage: String,
    pub error: Option<CaptureError>,
    pub created_at: u64,
    pub updated_at: u64,
}

/// A live breakpoint as listed to the user.
#[derive(Debug, Clone, PartialEq, Eq)]
pub struct BreakpointSummary {
    pub id: u64,
    pub session_id: u64,
    pub capture_id: u64,
    pub phase: InterceptorKind,
    pub position: usize,
    pub interceptor_name: String,
    pub method: String,
    pub uri: String,
    pub created_at: u64,
    pub expires_at: u64,
    pub remaining_ms: u64,
}

/// Which live breakpoints to list.
#[derive(Debug, Clone, PartialEq, Eq)]
pub struct BreakpointListFilter {
    pub session_id: u64,
    pub phase: Option<InterceptorKind>,
    pub interceptor_name: Option<String>,
}

/// The outcome of running a temporary script at a breakpoint.
#[derive(Debug, Clone, PartialEq, Eq)]
pub struct TemporaryExecutionResult {
    pub execution: InterceptorExecution,
    pub breakpoint: BreakpointSummary,
}

/// The lifecycle state of the proxy listener.
#[derive(Debug, Clone, PartialEq, Eq)]
pub enum ProxyStatus {
    Stopped,
    Starting,
    Running { host: String, port: u16, started_at: u64 },
    Stopping,
    Failed { message: String },
}

/// One entry of the in-memory system log.
#[derive(Debug, Clone, PartialEq, Eq)]
pub struct SystemLogEntry {
    pub seq: u64,
    pub timestamp: u64,
    pub level: String,
    pub message: String,
}

} // verus!
