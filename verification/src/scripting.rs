//! Running user scripts: the state a script starts from, what its return
//! value means for each kind of script, and how its run is turned into
//! effects. The scripting engine itself is handed in by the caller; it runs
//! the script against the state given here, through the transitions of
//! `InterceptorState`, and hands the state back.
use vstd::prelude::*;
use vstd::string::*;

use crate::interceptor::{InterceptorState, ModificationJournal, ScriptEffects};
use crate::model::{
    CaptureError, CaptureOutcome, CaptureSummary, HeaderValues, RequestData, RequestTags, ResponseData, ScriptKind,
};
use crate::headers::textual;
use crate::codec::JsonWarningCounts;
use crate::numbers::{decimal_text, i64_text, signed_decimal_text, u64_text};

verus! {

/// A value a script returned, as far as the library reads it. Numbers that are
/// not integers arrive as the text Lua prints for them.
#[derive(Debug, Clone, PartialEq, Eq)]
pub enum ScriptValue {
    Nil,
    Boolean(bool),
    Integer(i64),
    Number(String),
    /// A string that is valid UTF-8.
    Text(String),
    /// A string that is not valid UTF-8, with the error converting it gave.
    InvalidText(String),
    /// Any other kind of value (a table, a function, ...).
    Other,
}

/// A filter script must return a boolean.
pub fn filter_result(value: ScriptValue) -> (r: Result<bool, String>)
    ensures
        match value {
            ScriptValue::Boolean(b) => r == Ok::<bool, String>(b),
            _ => r matches Err(m) && m@ == "filter script must return a boolean"@,
        },
{
    match value {
        ScriptValue::Boolean(b) => Ok(b),
        _ => Err(String::from_str("filter script must return a boolean")),
    }
}

/// The text a column script's value shows as: nil is empty, booleans and
/// numbers are printed, strings are shown as they are.
pub open spec fn column_text(value: ScriptValue) -> Result<Seq<char>, Seq<char>> {
    match value {
        ScriptValue::Nil => Ok(Seq::empty()),
        ScriptValue::Boolean(b) => Ok(
            if b {
                "true"@
            } else {
                "false"@
            },
        ),
        ScriptValue::Integer(n) => Ok(signed_decimal_text(n as int)),
        ScriptValue::Number(t) => Ok(t@),
        ScriptValue::Text(t) => Ok(t@),
        ScriptValue::InvalidText(e) => Err(e@),
        ScriptValue::Other => Err("column script must return nil or a scalar value"@),
    }
}

/// A column shows nil as nothing and every scalar as its text; a string that
/// is not UTF-8 and any other value (a table, a function) are refused.
pub proof fn law_column_values(value: ScriptValue, t: String, n: i64)
    ensures
        column_text(value) is Err <==> (value is InvalidText || value is Other),
        column_text(ScriptValue::Nil) == Ok::<Seq<char>, Seq<char>>(Seq::empty()),
        column_text(ScriptValue::Text(t)) == Ok::<Seq<char>, Seq<char>>(t@),
        column_text(ScriptValue::Number(t)) == Ok::<Seq<char>, Seq<char>>(t@),
        column_text(ScriptValue::Integer(n)) == Ok::<Seq<char>, Seq<char>>(signed_decimal_text(n as int)),
        column_text(ScriptValue::Other) == Err::<Seq<char>, Seq<char>>("column script must return nil or a scalar value"@),
{
}

/// A column script must return nil or a scalar; its text is what the column shows.
pub fn column_result(value: ScriptValue) -> (r: Result<String, String>)
    ensures
        match r {
            Ok(t) => column_text(value) == Ok::<Seq<char>, Seq<char>>(t@),
            Err(m) => column_text(value) == Err::<Seq<char>, Seq<char>>(m@),
        },
{
    match value {
        ScriptValue::Nil => Ok(String::new()),
        ScriptValue::Boolean(b) => Ok(String::from_str(if b { "true" } else { "false" })),
        ScriptValue::Integer(n) => Ok(i64_text(n)),
        ScriptValue::Number(t) => Ok(t),
        ScriptValue::Text(t) => Ok(t),
        ScriptValue::InvalidText(e) => Err(e),
        ScriptValue::Other => Err(String::from_str("column script must return nil or a scalar value")),
    }
}

/// A routing script must return nil or a boolean.
pub fn routing_result(value: ScriptValue) -> (r: Result<Option<bool>, String>)
    ensures
        match value {
            ScriptValue::Nil => r == Ok::<Option<bool>, String>(None),
            ScriptValue::Boolean(b) => r == Ok::<Option<bool>, String>(Some(b)),
            _ => r matches Err(m) && m@ == "routing script must return a boolean or nil"@,
        },
{
    match value {
        ScriptValue::Nil => Ok(None),
        ScriptValue::Boolean(b) => Ok(Some(b)),
        _ => Err(String::from_str("routing script must return a boolean or nil")),
    }
}

/// The chunk name a script is compiled under, so errors read `{kind}.lua:line`.
pub open spec fn chunk_name_spec(kind: ScriptKind) -> Seq<char> {
    match kind {
        ScriptKind::Column => "@column.lua"@,
        ScriptKind::Filter => "@filter.lua"@,
        ScriptKind::Routing => "@routing.lua"@,
        ScriptKind::RequestInterceptor => "@request-interceptor.lua"@,
        ScriptKind::ResponseInterceptor => "@response-interceptor.lua"@,
    }
}

/// The chunk name a script of this kind is compiled under.
pub fn chunk_name(kind: ScriptKind) -> (r: &'static str)
    ensures
        r@ == chunk_name_spec(kind),
{
    match kind {
        ScriptKind::Column => "@column.lua",
        ScriptKind::Filter => "@filter.lua",
        ScriptKind::Routing => "@routing.lua",
        ScriptKind::RequestInterceptor => "@request-interceptor.lua",
        ScriptKind::ResponseInterceptor => "@response-interceptor.lua",
    }
}

/// How a script kind is named in warnings.
pub fn script_kind_label(kind: ScriptKind) -> (r: &'static str)
    ensures
        r@ == kind_label_spec(kind),
{
    match kind {
        ScriptKind::Column => "column script",
        ScriptKind::Filter => "filter script",
        ScriptKind::Routing => "routing script",
        ScriptKind::RequestInterceptor => "request interceptor",
        ScriptKind::ResponseInterceptor => "response interceptor",
    }
}

/// The name a script without a saved name runs under.
pub fn anonymous_script_name() -> (r: &'static str)
    ensures
        r@ == "<anonymous>"@,
{
    "<anonymous>"
}

/// The label of a script kind in warnings.
pub open spec fn kind_label_spec(kind: ScriptKind) -> Seq<char> {
    match kind {
        ScriptKind::Column => "column script"@,
        ScriptKind::Filter => "filter script"@,
        ScriptKind::Routing => "routing script"@,
        ScriptKind::RequestInterceptor => "request interceptor"@,
        ScriptKind::ResponseInterceptor => "response interceptor"@,
    }
}

/// The warning logged after a script run whose JSON decoding lost
/// information: the script's kind and quoted name, the capture if there is
/// one, and both counts.
pub open spec fn json_warning_text(
    kind: ScriptKind,
    quoted_name: Seq<char>,
    capture_log_id: Option<u64>,
    counts: JsonWarningCounts,
) -> Seq<char> {
    "Lua JSON decode warning in "@ + kind_label_spec(kind) + " "@ + quoted_name + ": "@ + match capture_log_id {
        Some(id) => "capture_log_id="@ + decimal_text(id as nat) + ", "@,
        None => Seq::empty(),
    } + "lossy_numbers="@ + decimal_text(counts.lossy_numbers as nat) + ", duplicate_keys="@ + decimal_text(
        counts.duplicate_keys as nat,
    )
}

/// The warning to log after a script run, or `None` when its JSON decoding
/// lost nothing. `quoted_name` is the script name as `{:?}` prints it.
pub fn json_warning_line(
    kind: ScriptKind,
    quoted_name: &str,
    capture_log_id: Option<u64>,
    counts: JsonWarningCounts,
) -> (r: Option<String>)
    ensures
        counts.lossy_numbers == 0 && counts.duplicate_keys == 0 ==> r.is_none(),
        !(counts.lossy_numbers == 0 && counts.duplicate_keys == 0) ==> (r matches Some(t) && t@
            == json_warning_text(kind, quoted_name@, capture_log_id, counts)),
{
    if counts.is_empty() {
        return None;
    }
    let mut line = String::from_str("Lua JSON decode warning in ");
    line.append(script_kind_label(kind));
    line.append(" ");
    line.append(quoted_name);
    line.append(": ");
    let ghost before_capture = line@;
    match capture_log_id {
        Some(id) => {
            line.append("capture_log_id=");
            let digits = u64_text(id);
            line.append(digits.as_str());
            line.append(", ");
        },
        None => {},
    }
    line.append("lossy_numbers=");
    let lossy = u64_text(counts.lossy_numbers as u64);
    line.append(lossy.as_str());
    line.append(", duplicate_keys=");
    let duplicates = u64_text(counts.duplicate_keys as u64);
    line.append(duplicates.as_str());
    proof {
        let capture_part = match capture_log_id {
            Some(id) => "capture_log_id="@ + decimal_text(id as nat) + ", "@,
            None => Seq::<char>::empty(),
        };
        assert(line@ =~= json_warning_text(kind, quoted_name@, capture_log_id, counts)) by {
            assert(line@ =~= before_capture + capture_part + "lossy_numbers="@ + decimal_text(
                counts.lossy_numbers as nat,
            ) + ", duplicate_keys="@ + decimal_text(counts.duplicate_keys as nat));
        }
    }
    Some(line)
}

/// Why a script was refused.
#[derive(Debug, Clone, PartialEq, Eq)]
pub enum ScriptError {
    /// It does not compile; the engine's message.
    InvalidScript(String),
}

/// The most memory one Lua state may allocate: 16 MiB.
pub const LUA_MEMORY_LIMIT: usize = 16777216;

/// What compiling `source` as a Lua chunk named `name` in a Lua state limited
/// to `memory_limit` bytes reports: `None` when it compiles, else the message.
pub uninterp spec fn lua_compile_error(name: Seq<char>, source: Seq<char>, memory_limit: usize) -> Option<Seq<char>>;

/// `mlua`: sets the memory limit of a fresh Lua state, then loads `source` as
/// a chunk named `name` and compiles it without running it; the result
/// depends on the two texts and the limit alone.
#[verifier::external_body]
fn lua_compile(name: &str, source: &str, memory_limit: usize) -> (r: Result<(), String>)
    ensures
        match r {
            Ok(()) => lua_compile_error(name@, source@, memory_limit).is_none(),
            Err(m) => lua_compile_error(name@, source@, memory_limit) == Some(m@),
        },
{
    let lua = mlua::Lua::new();
    lua.set_memory_limit(memory_limit).map_err(|error| error.to_string())?;
    lua.load(source).set_name(name).into_function().map(|_| ()).map_err(|error| error.to_string())
}

/// Checks that a script compiles, under the chunk name of its kind and within
/// the Lua memory limit; the compiler's message makes the `InvalidScript` error.
pub fn validate_script(kind: ScriptKind, source: &str) -> (r: Result<(), ScriptError>)
    ensures
        match lua_compile_error(chunk_name_spec(kind), source@, LUA_MEMORY_LIMIT) {
            None => r.is_ok(),
            Some(m) => r matches Err(ScriptError::InvalidScript(e)) && e@ == m,
        },
{
    match lua_compile(chunk_name(kind), source, LUA_MEMORY_LIMIT) {
        Ok(()) => Ok(()),
        Err(m) => Err(ScriptError::InvalidScript(m)),
    }
}

/// What the engine is told about a script run.
#[derive(Debug, Clone)]
pub struct ScriptCall {
    pub kind: ScriptKind,
    pub source: String,
    pub script_name: String,
    pub capture_log_id: Option<u64>,
    /// The request the script sees (`req`).
    pub request: RequestData,
    /// The response the script sees (`resp`), for response interceptors.
    pub response: Option<ResponseData>,
}

/// What an engine hands back from a run: the state and journal after the
/// script ran, and the error it stopped with, if any.
pub struct EngineRun {
    pub state: InterceptorState,
    pub journal: ModificationJournal,
    pub error: Option<String>,
}

/// `effects` are the final state and journal of `run`, field for field.
pub open spec fn effects_of(effects: ScriptEffects, run: EngineRun) -> bool {
    &&& effects.method == run.state.method
    &&& effects.uri == run.state.uri
    &&& effects.status == run.state.status
    &&& effects.headers == run.state.headers
    &&& effects.body == run.state.body
    &&& effects.tags == run.state.tags
    &&& effects.modifications@ == run.journal.state().1
}

/// What a lenient run gives for an engine outcome: the run's effects with the
/// error the script stopped with, or the engine's own failure.
pub open spec fn lenient_outcome(
    out: Result<EngineRun, String>,
    r: Result<(ScriptEffects, Option<String>), String>,
) -> bool {
    match out {
        Ok(run) => r matches Ok((effects, error)) && effects_of(effects, run) && error == run.error,
        Err(e) => r == Err::<(ScriptEffects, Option<String>), String>(e),
    }
}

/// What a strict run gives for an engine outcome: the effects when the script
/// finished without error, else the script's error or the engine's failure.
pub open spec fn strict_outcome(out: Result<EngineRun, String>, r: Result<ScriptEffects, String>) -> bool {
    match out {
        Ok(run) => match run.error {
            Some(e) => r == Err::<ScriptEffects, String>(e),
            None => r matches Ok(effects) && effects_of(effects, run),
        },
        Err(e) => r == Err::<ScriptEffects, String>(e),
    }
}

/// On the same engine outcome, a strict run succeeds exactly when the lenient
/// run reports no script error, with the same effects; otherwise it fails with
/// the error the lenient run reports.
pub proof fn law_strict_run_is_lenient_run_without_error(
    out: Result<EngineRun, String>,
    lenient: Result<(ScriptEffects, Option<String>), String>,
    strict: Result<ScriptEffects, String>,
)
    requires
        lenient_outcome(out, lenient),
        strict_outcome(out, strict),
    ensures
        match lenient {
            Ok((effects, None)) => strict matches Ok(e) && e.method == effects.method && e.uri == effects.uri
                && e.status == effects.status && e.headers == effects.headers && e.body == effects.body
                && e.tags == effects.tags && e.modifications@ == effects.modifications@,
            Ok((_, Some(m))) => strict == Err::<ScriptEffects, String>(m),
            Err(m) => strict == Err::<ScriptEffects, String>(m),
        },
{
}

/// The state a request interceptor starts from: the request's method, URI,
/// headers and tags, no replacement, and a journal that will first record the
/// request as it was.
pub open spec fn request_start(state: InterceptorState, journal: ModificationJournal, request: RequestData) -> bool {
    &&& state.method == Some(request.method)
    &&& state.uri == Some(request.uri)
    &&& state.status.is_none()
    &&& state.headers@ == request.headers@
    &&& state.body.is_none()
    &&& state.tags@ == request.tags@
    &&& !state.response_phase
    &&& journal.state().1.len() == 0
    &&& journal.state().0 matches Some(crate::model::Modification::Snapshot { request: Some(s), response: None })
        && s.method == request.method && s.uri == request.uri && s.version == request.version
        && s.headers@ == request.headers@ && s.body == crate::model::BodySourceType::Original
}

/// The state a response interceptor starts from: the response's status and
/// headers, the request's tags, no replacement, and a journal that will first
/// record the response as it was.
pub open spec fn response_start(
    state: InterceptorState,
    journal: ModificationJournal,
    response: ResponseData,
    tags: Seq<(Seq<char>, Seq<char>)>,
) -> bool {
    &&& state.method.is_none()
    &&& state.uri.is_none()
    &&& state.status == Some(response.status)
    &&& state.headers@ == response.headers@
    &&& state.body.is_none()
    &&& state.tags@ == tags
    &&& state.response_phase
    &&& journal.state().1.len() == 0
    &&& journal.state().0 matches Some(crate::model::Modification::Snapshot { request: None, response: Some(s) })
        && s.status == response.status && s.version == response.version && s.headers@ == response.headers@
        && s.body == crate::model::BodySourceType::Original
}

/// A response interceptor of a `_crab_skip` request sees the local answer:
/// status `200`, no headers, no replacement body, and a journal that will
/// first record that answer as it was, HTTP/1.1 with the original empty body.
pub proof fn law_skip_interceptors_start_from_local_answer(
    state: InterceptorState,
    journal: ModificationJournal,
    response: ResponseData,
    tags: Seq<(Seq<char>, Seq<char>)>,
)
    requires
        crate::capture_flow::skip_answer(response),
        response_start(state, journal, response, tags),
    ensures
        state.status == Some(200u16),
        state.headers@.len() == 0,
        state.body.is_none(),
        state.tags@ == tags,
        journal.state().0 matches Some(crate::model::Modification::Snapshot { request: None, response: Some(s) })
            && s.status == 200 && s.version@ == "HTTP/1.1"@ && s.headers@.len() == 0 && s.body
            == crate::model::BodySourceType::Original,
{
}

fn copy_request(r: &RequestData) -> (c: RequestData)
    ensures
        c.method == r.method,
        c.uri == r.uri,
        c.version == r.version,
        c.headers@ == r.headers@,
        c.tags@ == r.tags@,
{
    RequestData {
        method: r.method.clone(),
        uri: r.uri.clone(),
        version: r.version.clone(),
        headers: r.headers.duplicate(),
        tags: r.tags.duplicate(),
    }
}

fn copy_response(r: &ResponseData) -> (c: ResponseData)
    ensures
        c.status == r.status,
        c.version == r.version,
        c.headers@ == r.headers@,
{
    ResponseData { status: r.status, version: r.version.clone(), headers: r.headers.duplicate() }
}

/// Runs a request interceptor script through `engine` and returns its effects
/// with the error it stopped with; the engine's own failure (such as a failure
/// to set up the interpreter) is the error.
pub fn execute_request_lenient_named<E>(
    source: &str,
    request: &RequestData,
    script_name: &str,
    capture_log_id: Option<u64>,
    engine: E,
) -> (r: Result<(ScriptEffects, Option<String>), String>)
    where
        E: FnOnce(ScriptCall, InterceptorState, ModificationJournal) -> Result<EngineRun, String>,
    requires
        forall|c: ScriptCall, s: InterceptorState, j: ModificationJournal| engine.requires((c, s, j)),
    ensures
        exists|c: ScriptCall, s: InterceptorState, j: ModificationJournal, out: Result<EngineRun, String>|
            {
                &&& c.kind == ScriptKind::RequestInterceptor
                &&& c.source@ == source@
                &&& c.script_name@ == script_name@
                &&& c.capture_log_id == capture_log_id
                &&& c.response.is_none()
                &&& same_request(c.request, *request)
                &&& request_start(s, j, *request)
                &&& #[trigger] engine.ensures((c, s, j), out)
                &&& lenient_outcome(out, r)
            },
{
    let state = InterceptorState::new_request(
        request.method.clone(),
        request.uri.clone(),
        request.headers.duplicate(),
        request.tags.duplicate(),
    );
    let journal = ModificationJournal::for_request(request, None);
    let call = ScriptCall {
        kind: ScriptKind::RequestInterceptor,
        source: String::from_str(source),
        script_name: String::from_str(script_name),
        capture_log_id,
        request: copy_request(request),
        response: None,
    };
    let ghost (c0, s0, j0) = (call, state, journal);
    let out = engine(call, state, journal);
    match out {
        Ok(run) => {
            let EngineRun { state, journal, error } = run;
            let effects = state.into_effects(journal);
            Ok((effects, error))
        },
        Err(e) => Err(e),
    }
}

/// What `engine` may answer when an anonymous request interceptor `source`
/// runs on `request`: the call it is handed names the script `<anonymous>`,
/// carries no capture, shows the request as given, and starts from it.
pub open spec fn request_answer<E>(
    engine: E,
    source: Seq<char>,
    request: RequestData,
    out: Result<EngineRun, String>,
) -> bool
    where
        E: FnOnce(ScriptCall, InterceptorState, ModificationJournal) -> Result<EngineRun, String>,
{
    exists|c: ScriptCall, s: InterceptorState, j: ModificationJournal|
        {
            &&& c.kind == ScriptKind::RequestInterceptor
            &&& c.source@ == source
            &&& c.script_name@ == "<anonymous>"@
            &&& c.capture_log_id.is_none()
            &&& c.response.is_none()
            &&& same_request(c.request, request)
            &&& request_start(s, j, request)
            &&& #[trigger] engine.ensures((c, s, j), out)
        }
}

/// A strict run of a request interceptor and a lenient run of the same
/// script on the same request, with engines that answer such a call alike:
/// the strict run succeeds exactly when the lenient one reports no script
/// error, with the same effects, and otherwise fails with the error the
/// lenient run reports.
pub proof fn law_strict_request_run_is_lenient_run_without_error<E1, E2>(
    lenient_engine: E1,
    strict_engine: E2,
    source: Seq<char>,
    request: RequestData,
    lenient: Result<(ScriptEffects, Option<String>), String>,
    strict: Result<ScriptEffects, String>,
)
    where
        E1: FnOnce(ScriptCall, InterceptorState, ModificationJournal) -> Result<EngineRun, String>,
        E2: FnOnce(ScriptCall, InterceptorState, ModificationJournal) -> Result<EngineRun, String>,
    requires
        exists|out: Result<EngineRun, String>| #[trigger] request_answer(lenient_engine, source, request, out)
            && lenient_outcome(out, lenient),
        exists|out: Result<EngineRun, String>| #[trigger] request_answer(strict_engine, source, request, out)
            && strict_outcome(out, strict),
        forall|a: Result<EngineRun, String>, b: Result<EngineRun, String>|
            request_answer(lenient_engine, source, request, a) && request_answer(strict_engine, source, request, b)
                ==> a == b,
    ensures
        match lenient {
            Ok((effects, None)) => strict matches Ok(e) && e.method == effects.method && e.uri == effects.uri
                && e.status == effects.status && e.headers == effects.headers && e.body == effects.body
                && e.tags == effects.tags && e.modifications@ == effects.modifications@,
            Ok((_, Some(m))) => strict == Err::<ScriptEffects, String>(m),
            Err(m) => strict == Err::<ScriptEffects, String>(m),
        },
{
    let a = choose|out: Result<EngineRun, String>| #[trigger] request_answer(lenient_engine, source, request, out)
        && lenient_outcome(out, lenient);
    let b = choose|out: Result<EngineRun, String>| #[trigger] request_answer(strict_engine, source, request, out)
        && strict_outcome(out, strict);
    assert(a == b);
    law_strict_run_is_lenient_run_without_error(a, lenient, strict);
}

/// Runs a request interceptor script under the anonymous name.
pub fn execute_request_lenient<E>(source: &str, request: &RequestData, engine: E) -> (r: Result<
    (ScriptEffects, Option<String>),
    String,
>)
    where
        E: FnOnce(ScriptCall, InterceptorState, ModificationJournal) -> Result<EngineRun, String>,
    requires
        forall|c: ScriptCall, s: InterceptorState, j: ModificationJournal| engine.requires((c, s, j)),
    ensures
        exists|out: Result<EngineRun, String>| #[trigger] request_answer(engine, source@, *request, out)
            && lenient_outcome(out, r),
{
    let r = execute_request_lenient_named(source, request, anonymous_script_name(), None, engine);
    proof {
        let (c, st, j, out) = choose|c: ScriptCall, st: InterceptorState, j: ModificationJournal, out: Result<
            EngineRun,
            String,
        >|
            {
                &&& c.kind == ScriptKind::RequestInterceptor
                &&& c.source@ == source@
                &&& c.script_name@ == "<anonymous>"@
                &&& c.capture_log_id == None::<u64>
                &&& c.response.is_none()
                &&& same_request(c.request, *request)
                &&& request_start(st, j, *request)
                &&& #[trigger] engine.ensures((c, st, j), out)
                &&& lenient_outcome(out, r)
            };
        assert(request_answer(engine, source@, *request, out));
    }
    r
}

/// Runs a request interceptor script; a script that stops with an error fails.
pub fn execute_request<E>(source: &str, request: &RequestData, engine: E) -> (r: Result<ScriptEffects, String>)
    where
        E: FnOnce(ScriptCall, InterceptorState, ModificationJournal) -> Result<EngineRun, String>,
    requires
        forall|c: ScriptCall, s: InterceptorState, j: ModificationJournal| engine.requires((c, s, j)),
    ensures
        exists|out: Result<EngineRun, String>| #[trigger] request_answer(engine, source@, *request, out)
            && strict_outcome(out, r),
{
    match execute_request_lenient(source, request, engine) {
        Ok((effects, error)) => match error {
            Some(e) => Err(e),
            None => Ok(effects),
        },
        Err(e) => Err(e),
    }
}

/// Runs a response interceptor script through `engine`, with the request's
/// tags; the script sees an empty request line besides those tags.
pub fn execute_response_lenient_named_with_tags<E>(
    source: &str,
    response: &ResponseData,
    request_tags: &RequestTags,
    script_name: &str,
    capture_log_id: Option<u64>,
    engine: E,
) -> (r: Result<(ScriptEffects, Option<String>), String>)
    where
        E: FnOnce(ScriptCall, InterceptorState, ModificationJournal) -> Result<EngineRun, String>,
    requires
        forall|c: ScriptCall, s: InterceptorState, j: ModificationJournal| engine.requires((c, s, j)),
    ensures
        exists|c: ScriptCall, s: InterceptorState, j: ModificationJournal, out: Result<EngineRun, String>|
            {
                &&& c.kind == ScriptKind::ResponseInterceptor
                &&& c.source@ == source@
                &&& c.script_name@ == script_name@
                &&& c.capture_log_id == capture_log_id
                &&& tags_only_request(c.request, request_tags@)
                &&& c.response matches Some(resp) && resp.status == response.status
                    && resp.version == response.version && resp.headers@ == response.headers@
                &&& response_start(s, j, *response, request_tags@)
                &&& #[trigger] engine.ensures((c, s, j), out)
                &&& lenient_outcome(out, r)
            },
{
    let request = RequestData {
        method: String::new(),
        uri: String::new(),
        version: String::new(),
        headers: HeaderValues::new(),
        tags: request_tags.duplicate(),
    };
    let state = InterceptorState::new_response(response.status, response.headers.duplicate(), request_tags.duplicate());
    let journal = ModificationJournal::for_response(response, None);
    let call = ScriptCall {
        kind: ScriptKind::ResponseInterceptor,
        source: String::from_str(source),
        script_name: String::from_str(script_name),
        capture_log_id,
        request,
        response: Some(copy_response(response)),
    };
    let out = engine(call, state, journal);
    match out {
        Ok(run) => {
            let EngineRun { state, journal, error } = run;
            let effects = state.into_effects(journal);
            Ok((effects, error))
        },
        Err(e) => Err(e),
    }
}

/// Runs a response interceptor script with no request tags.
pub fn execute_response_lenient_named<E>(
    source: &str,
    response: &ResponseData,
    script_name: &str,
    capture_log_id: Option<u64>,
    engine: E,
) -> (r: Result<(ScriptEffects, Option<String>), String>)
    where
        E: FnOnce(ScriptCall, InterceptorState, ModificationJournal) -> Result<EngineRun, String>,
    requires
        forall|c: ScriptCall, s: InterceptorState, j: ModificationJournal| engine.requires((c, s, j)),
    ensures
        exists|c: ScriptCall, s: InterceptorState, j: ModificationJournal, out: Result<EngineRun, String>|
            {
                &&& c.kind == ScriptKind::ResponseInterceptor
                &&& c.source@ == source@
                &&& c.script_name@ == script_name@
                &&& c.capture_log_id == capture_log_id
                &&& tags_only_request(c.request, Seq::empty())
                &&& c.response matches Some(resp) && same_response(resp, *response)
                &&& response_start(s, j, *response, Seq::empty())
                &&& #[trigger] engine.ensures((c, s, j), out)
                &&& lenient_outcome(out, r)
            },
{
    let tags = RequestTags::new();
    execute_response_lenient_named_with_tags(source, response, &tags, script_name, capture_log_id, engine)
}

/// Runs a response interceptor script under the anonymous name.
pub fn execute_response_lenient<E>(source: &str, response: &ResponseData, engine: E) -> (r: Result<
    (ScriptEffects, Option<String>),
    String,
>)
    where
        E: FnOnce(ScriptCall, InterceptorState, ModificationJournal) -> Result<EngineRun, String>,
    requires
        forall|c: ScriptCall, s: InterceptorState, j: ModificationJournal| engine.requires((c, s, j)),
    ensures
        exists|c: ScriptCall, s: InterceptorState, j: ModificationJournal, out: Result<EngineRun, String>|
            {
                &&& c.kind == ScriptKind::ResponseInterceptor
                &&& c.source@ == source@
                &&& c.script_name@ == "<anonymous>"@
                &&& c.capture_log_id.is_none()
                &&& tags_only_request(c.request, Seq::empty())
                &&& c.response matches Some(resp) && same_response(resp, *response)
                &&& response_start(s, j, *response, Seq::empty())
                &&& #[trigger] engine.ensures((c, s, j), out)
                &&& lenient_outcome(out, r)
            },
{
    execute_response_lenient_named(source, response, anonymous_script_name(), None, engine)
}

/// Runs a response interceptor script; a script that stops with an error fails.
pub fn execute_response<E>(source: &str, response: &ResponseData, engine: E) -> (r: Result<ScriptEffects, String>)
    where
        E: FnOnce(ScriptCall, InterceptorState, ModificationJournal) -> Result<EngineRun, String>,
    requires
        forall|c: ScriptCall, s: InterceptorState, j: ModificationJournal| engine.requires((c, s, j)),
    ensures
        exists|c: ScriptCall, s: InterceptorState, j: ModificationJournal, out: Result<EngineRun, String>|
            {
                &&& c.kind == ScriptKind::ResponseInterceptor
                &&& c.source@ == source@
                &&& tags_only_request(c.request, Seq::empty())
                &&& c.response matches Some(resp) && same_response(resp, *response)
                &&& response_start(s, j, *response, Seq::empty())
                &&& #[trigger] engine.ensures((c, s, j), out)
                &&& strict_outcome(out, r)
            },
{
    match execute_response_lenient(source, response, engine) {
        Ok((effects, error)) => match error {
            Some(e) => Err(e),
            None => Ok(effects),
        },
        Err(e) => Err(e),
    }
}

/// A body read for a script: its text bytes, nothing when it is not text, or
/// the failure reading it.
pub type CachedBody = Result<Option<Vec<u8>>, String>;

/// A read body as plain values.
pub open spec fn cached_view(c: CachedBody) -> Result<Option<Seq<u8>>, Seq<char>> {
    match c {
        Ok(Some(b)) => Ok(Some(b@)),
        Ok(None) => Ok(None),
        Err(e) => Err(e@),
    }
}

fn copy_cached(c: &CachedBody) -> (r: CachedBody)
    ensures
        cached_view(r) == cached_view(*c),
{
    match c {
        Ok(Some(b)) => Ok(Some(crate::text::copy_bytes(b.as_slice()))),
        Ok(None) => Ok(None),
        Err(e) => Err(e.clone()),
    }
}

/// Read access to the stored bodies of one capture for a script: each side is
/// read at most once and later reads get the same answer.
pub struct CaptureBodyAccess {
    readable: bool,
    request: Option<CachedBody>,
    response: Option<CachedBody>,
    loads: Ghost<(nat, nat)>,
}

impl CaptureBodyAccess {
    /// Whether bodies can be read at all.
    pub closed spec fn readable(&self) -> bool {
        self.readable
    }

    /// What a side was read as, once read.
    pub closed spec fn cached(&self, side: crate::storage::BodySide) -> Option<Result<Option<Seq<u8>>, Seq<char>>> {
        match side {
            crate::storage::BodySide::Request => match self.request {
                Some(c) => Some(cached_view(c)),
                None => None,
            },
            crate::storage::BodySide::Response => match self.response {
                Some(c) => Some(cached_view(c)),
                None => None,
            },
        }
    }

    /// How many times a side was loaded since this access was made.
    pub closed spec fn load_count(&self, side: crate::storage::BodySide) -> nat {
        match side {
            crate::storage::BodySide::Request => self.loads@.0,
            crate::storage::BodySide::Response => self.loads@.1,
        }
    }

    /// Each side was loaded at most once, and a loaded side is cached.
    #[verifier::type_invariant]
    spec fn loaded_once(self) -> bool {
        &&& self.loads@.0 <= 1
        &&& self.loads@.1 <= 1
        &&& self.loads@.0 == 1 ==> self.request.is_some()
        &&& self.loads@.1 == 1 ==> self.response.is_some()
    }

    /// Access to bodies that the I/O layer can load on first read.
    pub fn new() -> (r: Self)
        ensures
            r.readable(),
            r.cached(crate::storage::BodySide::Request).is_none(),
            r.cached(crate::storage::BodySide::Response).is_none(),
            r.load_count(crate::storage::BodySide::Request) == 0,
            r.load_count(crate::storage::BodySide::Response) == 0,
    {
        CaptureBodyAccess { readable: true, request: None, response: None, loads: Ghost((0, 0)) }
    }

    /// No body access: every read gives nothing.
    pub fn unavailable() -> (r: Self)
        ensures
            !r.readable(),
            r.cached(crate::storage::BodySide::Request).is_none(),
            r.cached(crate::storage::BodySide::Response).is_none(),
            r.load_count(crate::storage::BodySide::Request) == 0,
            r.load_count(crate::storage::BodySide::Response) == 0,
    {
        CaptureBodyAccess { readable: false, request: None, response: None, loads: Ghost((0, 0)) }
    }

    /// Whether bodies can be read at all.
    pub fn is_readable(&self) -> (r: bool)
        ensures
            r == self.readable(),
    {
        self.readable
    }

    /// The text bytes of one side. The first read of a side asks `load` when
    /// bodies are readable (nothing otherwise); every later read returns the
    /// first answer without loading again, so however many reads are made, a
    /// side is loaded at most once.
    pub fn text_bytes<L>(&mut self, side: crate::storage::BodySide, load: L) -> (r: CachedBody)
        where
            L: FnOnce(crate::storage::BodySide) -> CachedBody,
        requires
            load.requires((side,)),
        ensures
            final(self).readable() == old(self).readable(),
            final(self).cached(side) == Some(cached_view(r)),
            forall|other: crate::storage::BodySide| other != side ==> #[trigger] final(self).cached(other)
                == old(self).cached(other),
            match old(self).cached(side) {
                Some(c) => cached_view(r) == c,
                None => if old(self).readable() {
                    load.ensures((side,), r)
                } else {
                    r == Ok::<Option<Vec<u8>>, String>(None)
                },
            },
            final(self).load_count(side) == old(self).load_count(side) + if old(self).cached(side).is_none()
                && old(self).readable() {
                1nat
            } else {
                0nat
            },
            forall|other: crate::storage::BodySide| other != side ==> #[trigger] final(self).load_count(other)
                == old(self).load_count(other),
            final(self).load_count(side) <= 1,
    {
        proof {
            use_type_invariant(&*self);
        }
        let existing = match side {
            crate::storage::BodySide::Request => &self.request,
            crate::storage::BodySide::Response => &self.response,
        };
        match existing {
            Some(c) => return copy_cached(c),
            None => {},
        }
        let mut taken = CaptureBodyAccess::unavailable();
        std::mem::swap(self, &mut taken);
        let CaptureBodyAccess { readable, request, response, loads } = taken;
        let result = if readable {
            load(side)
        } else {
            Ok(None)
        };
        let stored = copy_cached(&result);
        let ghost added: nat = if readable {
            1
        } else {
            0
        };
        match side {
            crate::storage::BodySide::Request => {
                *self = CaptureBodyAccess {
                    readable,
                    request: Some(stored),
                    response,
                    loads: Ghost((loads@.0 + added, loads@.1)),
                };
            },
            crate::storage::BodySide::Response => {
                *self = CaptureBodyAccess {
                    readable,
                    request,
                    response: Some(stored),
                    loads: Ghost((loads@.0, loads@.1 + added)),
                };
            },
        }
        result
    }
}

/// The bodies a script over a capture row gets: none while the capture is
/// still in progress.
pub fn bodies_for_entry(entry: &CaptureSummary, bodies: CaptureBodyAccess) -> (r: CaptureBodyAccess)
    ensures
        entry.outcome == CaptureOutcome::InProgress ==> !r.readable() && r.cached(crate::storage::BodySide::Request).is_none()
            && r.cached(crate::storage::BodySide::Response).is_none(),
        entry.outcome != CaptureOutcome::InProgress ==> r == bodies,
{
    if entry.outcome == CaptureOutcome::InProgress {
        CaptureBodyAccess::unavailable()
    } else {
        bodies
    }
}

/// The request a script sees is the given one: the same request line,
/// version, headers and tags.
pub open spec fn same_request(c: RequestData, r: RequestData) -> bool {
    &&& c.method == r.method
    &&& c.uri == r.uri
    &&& c.version == r.version
    &&& c.headers@ == r.headers@
    &&& c.tags@ == r.tags@
}

/// The response a script sees is the given one: the same status, version and
/// headers.
pub open spec fn same_response(c: ResponseData, r: ResponseData) -> bool {
    &&& c.status == r.status
    &&& c.version == r.version
    &&& c.headers@ == r.headers@
}

/// The request a response interceptor sees: an empty request line and no
/// headers, with the request's tags.
pub open spec fn tags_only_request(c: RequestData, tags: Seq<(Seq<char>, Seq<char>)>) -> bool {
    &&& c.method@.len() == 0
    &&& c.uri@.len() == 0
    &&& c.version@.len() == 0
    &&& c.headers@.len() == 0
    &&& c.tags@ == tags
}

/// The capture row a script sees is the given one, field by field.
pub open spec fn same_row(c: CaptureSummary, e: CaptureSummary) -> bool {
    &&& c.id == e.id
    &&& c.session_id == e.session_id
    &&& c.source == e.source
    &&& same_request(c.request, e.request)
    &&& match (c.response, e.response) {
        (Some(a), Some(b)) => same_response(a, b),
        (None, None) => true,
        _ => false,
    }
    &&& c.outcome == e.outcome
    &&& c.stage == e.stage
    &&& c.error == e.error
    &&& c.created_at == e.created_at
    &&& c.updated_at == e.updated_at
}

fn copy_row(e: &CaptureSummary) -> (c: CaptureSummary)
    ensures
        same_row(c, *e),
{
    let response = match &e.response {
        Some(r) => Some(copy_response(r)),
        None => None,
    };
    let error = match &e.error {
        Some(x) => Some(CaptureError { stage: x.stage, kind: x.kind.clone(), message: x.message.clone() }),
        None => None,
    };
    CaptureSummary {
        id: e.id,
        session_id: e.session_id,
        source: e.source.clone(),
        request: copy_request(&e.request),
        response,
        outcome: e.outcome,
        stage: e.stage.clone(),
        error,
        created_at: e.created_at,
        updated_at: e.updated_at,
    }
}

/// What the engine is told about a script run over one capture row.
pub struct EntryCall {
    pub kind: ScriptKind,
    pub source: String,
    pub script_name: String,
    /// The filter input, for filter scripts.
    pub argument: Option<String>,
    pub entry: CaptureSummary,
    pub bodies: CaptureBodyAccess,
}

/// Runs a filter script over one capture row: it gets the filter input and
/// the row, without body access, and must return a boolean.
pub fn evaluate_filter_named<E>(
    source: &str,
    argument: &str,
    entry: &CaptureSummary,
    script_name: &str,
    engine: E,
) -> (r: Result<bool, String>)
    where
        E: FnOnce(EntryCall) -> Result<ScriptValue, String>,
    requires
        forall|c: EntryCall| engine.requires((c,)),
    ensures
        exists|c: EntryCall, out: Result<ScriptValue, String>|
            {
                &&& c.kind == ScriptKind::Filter
                &&& c.source@ == source@
                &&& c.script_name@ == script_name@
                &&& c.argument matches Some(a) && a@ == argument@
                &&& same_row(c.entry, *entry)
                &&& !c.bodies.readable()
                &&& #[trigger] engine.ensures((c,), out)
                &&& match out {
                    Ok(ScriptValue::Boolean(b)) => r == Ok::<bool, String>(b),
                    Ok(_) => r matches Err(m) && m@ == "filter script must return a boolean"@,
                    Err(e) => r == Err::<bool, String>(e),
                }
            },
{
    let bodies = bodies_for_entry(entry, CaptureBodyAccess::unavailable());
    let call = EntryCall {
        kind: ScriptKind::Filter,
        source: String::from_str(source),
        script_name: String::from_str(script_name),
        argument: Some(String::from_str(argument)),
        entry: copy_row(entry),
        bodies,
    };
    match engine(call) {
        Ok(value) => filter_result(value),
        Err(e) => Err(e),
    }
}

/// Runs a filter script under the anonymous name.
pub fn evaluate_filter<E>(source: &str, argument: &str, entry: &CaptureSummary, engine: E) -> (r: Result<
    bool,
    String,
>)
    where
        E: FnOnce(EntryCall) -> Result<ScriptValue, String>,
    requires
        forall|c: EntryCall| engine.requires((c,)),
    ensures
        exists|c: EntryCall, out: Result<ScriptValue, String>|
            {
                &&& c.kind == ScriptKind::Filter
                &&& c.source@ == source@
                &&& c.script_name@ == "<anonymous>"@
                &&& c.argument matches Some(a) && a@ == argument@
                &&& same_row(c.entry, *entry)
                &&& !c.bodies.readable()
                &&& #[trigger] engine.ensures((c,), out)
                &&& match out {
                    Ok(ScriptValue::Boolean(b)) => r == Ok::<bool, String>(b),
                    Ok(_) => r matches Err(m) && m@ == "filter script must return a boolean"@,
                    Err(e) => r == Err::<bool, String>(e),
                }
            },
{
    evaluate_filter_named(source, argument, entry, anonymous_script_name(), engine)
}

/// Runs a column script over one capture row: it gets the row, without body
/// access, and its value is shown as text.
pub fn evaluate_column_named<E>(source: &str, entry: &CaptureSummary, script_name: &str, engine: E) -> (r:
    Result<String, String>)
    where
        E: FnOnce(EntryCall) -> Result<ScriptValue, String>,
    requires
        forall|c: EntryCall| engine.requires((c,)),
    ensures
        exists|c: EntryCall, out: Result<ScriptValue, String>|
            {
                &&& c.kind == ScriptKind::Column
                &&& c.source@ == source@
                &&& c.script_name@ == script_name@
                &&& c.argument.is_none()
                &&& same_row(c.entry, *entry)
                &&& !c.bodies.readable()
                &&& #[trigger] engine.ensures((c,), out)
                &&& match out {
                    Ok(v) => match r {
                        Ok(t) => column_text(v) == Ok::<Seq<char>, Seq<char>>(t@),
                        Err(m) => column_text(v) == Err::<Seq<char>, Seq<char>>(m@),
                    },
                    Err(e) => r == Err::<String, String>(e),
                }
            },
{
    let bodies = bodies_for_entry(entry, CaptureBodyAccess::unavailable());
    let call = EntryCall {
        kind: ScriptKind::Column,
        source: String::from_str(source),
        script_name: String::from_str(script_name),
        argument: None,
        entry: copy_row(entry),
        bodies,
    };
    match engine(call) {
        Ok(value) => column_result(value),
        Err(e) => Err(e),
    }
}

/// Runs a column script under the anonymous name.
pub fn evaluate_column<E>(source: &str, entry: &CaptureSummary, engine: E) -> (r: Result<String, String>)
    where
        E: FnOnce(EntryCall) -> Result<ScriptValue, String>,
    requires
        forall|c: EntryCall| engine.requires((c,)),
    ensures
        exists|c: EntryCall, out: Result<ScriptValue, String>|
            {
                &&& c.kind == ScriptKind::Column
                &&& c.source@ == source@
                &&& c.script_name@ == "<anonymous>"@
                &&& c.argument.is_none()
                &&& same_row(c.entry, *entry)
                &&& !c.bodies.readable()
                &&& #[trigger] engine.ensures((c,), out)
                &&& match out {
                    Ok(v) => match r {
                        Ok(t) => column_text(v) == Ok::<Seq<char>, Seq<char>>(t@),
                        Err(m) => column_text(v) == Err::<Seq<char>, Seq<char>>(m@),
                    },
                    Err(e) => r == Err::<String, String>(e),
                }
            },
{
    evaluate_column_named(source, entry, anonymous_script_name(), engine)
}

/// The most bytes a script reads from one body: 16 MiB.
pub const LUA_BODY_LIMIT: u64 = 16777216;

/// Where a script's body text comes from.
#[derive(Debug, Clone)]
pub enum TextSource {
    /// The body is not text: the read gives nothing.
    NotText,
    /// The replacement text itself.
    Replacement(String),
    /// The replacement asset's file, to be decoded.
    File(std::path::PathBuf),
    /// The original body, buffered first; reading waits at most this long for
    /// each frame, in milliseconds.
    Raw { frame_timeout_ms: Option<u64> },
}

/// How a script reads the current body as text: where the bytes come from,
/// and the content codings to undo (last applied first).
pub struct TextReadPlan {
    pub source: TextSource,
    pub encodings: Vec<String>,
}

/// Plans a script's read of the current body: only a textual content type is
/// read; a text replacement is itself the answer (if within the limit), an
/// asset replacement is read from its file, and the original body is read
/// from the buffered capture, in the response phase within the frame timeout
/// the request's tags set.
pub fn plan_text_read(state: &InterceptorState) -> (r: Result<TextReadPlan, String>)
    ensures
        match r {
            Err(m) => m@ == "body exceeds the 16 MiB Lua limit"@ && textual(
                crate::storage::declared_content_type(state.headers@),
            ) && (state.body matches Some(crate::interceptor::BodyReplacement::String(c)) && crate::text::utf8_len(c@)
                > LUA_BODY_LIMIT),
            Ok(plan) => {
                &&& plan.encodings.deep_view() == match crate::headers::find_first_ci(
                    state.headers@,
                    "content-encoding"@,
                ) {
                    Some(i) => crate::headers::values_tokens(state.headers@[i].1),
                    None => Seq::<Seq<char>>::empty(),
                }
                &&& match plan.source {
                    TextSource::NotText => !textual(crate::storage::declared_content_type(state.headers@)),
                    TextSource::Replacement(c) => textual(crate::storage::declared_content_type(state.headers@))
                        && state.body == Some(crate::interceptor::BodyReplacement::String(c))
                        && crate::text::utf8_len(c@) <= LUA_BODY_LIMIT,
                    TextSource::File(p) => textual(crate::storage::declared_content_type(state.headers@))
                        && (state.body matches Some(crate::interceptor::BodyReplacement::Asset(a)) && a.path == p),
                    TextSource::Raw { frame_timeout_ms } => textual(
                        crate::storage::declared_content_type(state.headers@),
                    ) && state.body.is_none() && frame_timeout_ms == if state.response_phase {
                        match crate::strmap::lookup(state.tags@, "_crab_resp_bodyframe_timeout"@) {
                            Some(v) => match crate::tags::rust_u64_spec(v) {
                                Some(t) => if t > 0 {
                                    Some(t)
                                } else {
                                    None
                                },
                                None => None,
                            },
                            None => None,
                        }
                    } else {
                        None
                    },
                }
            },
        },
{
    let encodings = crate::headers::first_header_tokens(&state.headers, "content-encoding");
    let content_type = match crate::headers::first_header(&state.headers, "content-type") {
        Some(v) => v,
        None => "",
    };
    assert(content_type@ == crate::storage::declared_content_type(state.headers@)) by {
        reveal_strlit("");
    }
    if !crate::headers::is_textual(content_type) {
        return Ok(TextReadPlan { source: TextSource::NotText, encodings });
    }
    let source = match &state.body {
        Some(crate::interceptor::BodyReplacement::String(c)) => {
            if c.as_str().len() as u64 > LUA_BODY_LIMIT {
                return Err(String::from_str("body exceeds the 16 MiB Lua limit"));
            }
            TextSource::Replacement(c.clone())
        },
        Some(crate::interceptor::BodyReplacement::Asset(a)) => TextSource::File(a.path.clone()),
        None => {
            let frame_timeout_ms = if state.response_phase {
                match state.tags.get(crate::tags::resp_bodyframe_timeout_tag()) {
                    Some(v) => match crate::tags::parse_u64(v.as_str()) {
                        Some(t) => if t > 0 {
                            Some(t)
                        } else {
                            None
                        },
                        None => None,
                    },
                    None => None,
                }
            } else {
                None
            };
            TextSource::Raw { frame_timeout_ms }
        },
    };
    Ok(TextReadPlan { source, encodings })
}

/// The decoders to apply for a list of codings, last applied first; `None`
/// when one of them cannot be decoded, which makes the body not text.
pub fn decoders_for(encodings: &Vec<String>) -> (r: Option<Vec<crate::storage::Coding>>)
    ensures
        match r {
            Some(d) => d@.len() == encodings@.len() && forall|k: int|
                0 <= k < d@.len() ==> crate::storage::coding_of(encodings@[encodings@.len() - 1 - k]@)
                    == Some(#[trigger] d@[k]),
            None => exists|k: int|
                0 <= k < encodings@.len() && crate::storage::coding_of(#[trigger] encodings@[k]@).is_none(),
        },
{
    let n = encodings.len();
    let mut out: Vec<crate::storage::Coding> = Vec::new();
    let mut i: usize = n;
    while i > 0
        invariant
            n == encodings@.len(),
            i <= n,
            out@.len() == n - i,
            forall|k: int|
                0 <= k < out@.len() ==> crate::storage::coding_of(encodings@[n - 1 - k]@) == Some(#[trigger] out@[k]),
        decreases i,
    {
        match crate::storage::coding_for(encodings[i - 1].as_str()) {
            Some(c) => out.push(c),
            None => return None,
        }
        i = i - 1;
    }
    Some(out)
}

/// The outcome of a script's read of body bytes: more than the limit is an
/// error; a read that failed counts as no text.
pub fn bounded_text(read: Option<Vec<u8>>) -> (r: Result<Option<Vec<u8>>, String>)
    ensures
        match read {
            None => r == Ok::<Option<Vec<u8>>, String>(None),
            Some(b) => if b@.len() > LUA_BODY_LIMIT {
                r matches Err(m) && m@ == "body exceeds the 16 MiB Lua limit"@
            } else {
                r == Ok::<Option<Vec<u8>>, String>(Some(b))
            },
        },
{
    match read {
        None => Ok(None),
        Some(b) => {
            if b.len() as u64 > LUA_BODY_LIMIT {
                Err(String::from_str("body exceeds the 16 MiB Lua limit"))
            } else {
                Ok(Some(b))
            }
        },
    }
}

/// The most Lua instructions one script run may execute.
pub const INSTRUCTION_LIMIT: u32 = 100000;

/// How many instructions the engine counts between checks.
pub const INSTRUCTION_CHECK_INTERVAL: u32 = 1000;

/// The instructions a script has executed so far, counted in steps of the
/// check interval.
#[derive(Debug, Clone, Copy, PartialEq, Eq, Structural)]
pub struct InstructionCounter {
    pub executed: u32,
}

impl InstructionCounter {
    /// A counter at zero.
    pub fn new() -> (r: Self)
        ensures
            r.executed == 0,
    {
        InstructionCounter { executed: 0 }
    }

    /// Starts counting again, as before each row a reusable script evaluates.
    pub fn reset(&mut self)
        ensures
            final(self).executed == 0,
    {
        self.executed = 0;
    }

    /// Counts `count` more instructions and returns the total.
    pub fn add(&mut self, count: u32) -> (r: u32)
        requires
            old(self).executed + count <= u32::MAX,
        ensures
            r == old(self).executed + count,
            final(self).executed == r,
    {
        self.executed = self.executed + count;
        self.executed
    }

    /// The engine's check after each interval: past the limit the script is
    /// stopped with an error.
    pub fn check(&mut self) -> (r: Result<(), String>)
        requires
            old(self).executed + INSTRUCTION_CHECK_INTERVAL <= u32::MAX,
        ensures
            final(self).executed == old(self).executed + INSTRUCTION_CHECK_INTERVAL,
            match r {
                Ok(()) => final(self).executed <= INSTRUCTION_LIMIT,
                Err(m) => final(self).executed > INSTRUCTION_LIMIT && m@ == "Lua instruction limit exceeded"@,
            },
    {
        if self.add(INSTRUCTION_CHECK_INTERVAL) > INSTRUCTION_LIMIT {
            Err(String::from_str("Lua instruction limit exceeded"))
        } else {
            Ok(())
        }
    }
}

} // verus!
