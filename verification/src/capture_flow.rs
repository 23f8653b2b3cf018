//! The decisions of a captured HTTP exchange: how each interceptor run changes
//! the request or response, what the proxy does with the final request, how
//! the response is sent back, and how the capture is settled once every body
//! has been moved. The network and storage work happens in the I/O layer,
//! which follows these answers.
use std::path::PathBuf;
use vstd::prelude::*;
use vstd::string::*;

use crate::body_flow::{PumpOutcome, PumpResult};
use crate::headers::{remove_header_value, response_status_has_body};
use crate::interceptor::{BodyReplacement, ScriptEffects};
use crate::model::{
    CaptureError, ErrorStage, HeaderValues, InterceptorExecutionOrigin, InterceptorKind, InterceptorRun, Modification,
    RequestData, RequestTags, ResponseData,
};
use crate::tags::{
    parse_special_tag, req_speed_tag, req_timeout_tag, resp_bodyframe_timeout_tag, resp_speed_tag,
    skip_tag, special_tag_spec, tls_insecure_from_tags, tls_insecure_spec,
};
use crate::strmap::{has_key, lookup};
use crate::wire::append_run_error;

verus! {

/// A capture error as its stage, kind and message text.
pub type NoteView = (ErrorStage, Seq<char>, Seq<char>);

/// The stage, kind and message of a capture error.
pub open spec fn note_view(e: CaptureError) -> NoteView {
    (e.stage, e.kind@, e.message@)
}

/// Whether a capture ends complete or failed with an error.
#[derive(Debug, Clone, PartialEq, Eq)]
pub enum CaptureVerdict {
    Complete,
    Fail(CaptureError),
}

/// The errors to note on a capture, in order, and how the capture ends.
#[derive(Debug, Clone)]
pub struct CaptureSettlement {
    pub notes: Vec<CaptureError>,
    pub verdict: CaptureVerdict,
}

/// The notes a finished request body pump leaves: its capture failure, then
/// its read failure.
pub open spec fn request_pump_notes(result: Option<PumpResult>, modified: bool) -> Seq<NoteView> {
    match result {
        None => Seq::empty(),
        Some(r) => {
            let store = match r.storage_error {
                Some(e) => seq![
                    (
                        ErrorStage::RequestBody,
                        if modified {
                            "modified_request_body_store_failed"@
                        } else {
                            "request_body_store_failed"@
                        },
                        e@,
                    ),
                ],
                None => Seq::empty(),
            };
            let read = match r.outcome {
                PumpOutcome::InputError(e) => seq![
                    (
                        ErrorStage::RequestBody,
                        if modified {
                            "modified_request_body_read_failed"@
                        } else {
                            "request_body_read_failed"@
                        },
                        e@,
                    ),
                ],
                _ => Seq::empty(),
            };
            store + read
        },
    }
}

/// A request body pump leaves a note for each of its problems, at the request
/// body stage and carrying the problem's text: its storage failure first, then
/// its read failure; a clean pump, or one that never ran, leaves none.
pub proof fn law_request_body_notes(result: Option<PumpResult>, modified: bool)
    ensures
        forall|i: int|
            0 <= i < request_pump_notes(result, modified).len() ==> (#[trigger] request_pump_notes(result, modified)[i]).0
                == ErrorStage::RequestBody,
        result.is_none() ==> request_pump_notes(result, modified).len() == 0,
        result matches Some(r) ==> (r.storage_error.is_none() && !(r.outcome is InputError) ==> request_pump_notes(
            result,
            modified,
        ).len() == 0),
        result matches Some(r) ==> (r.storage_error matches Some(e) ==> request_pump_notes(result, modified)[0].2
            == e@),
        result matches Some(r) ==> (r.outcome matches PumpOutcome::InputError(e) ==> request_pump_notes(
            result,
            modified,
        ).last().2 == e@),
{
}

/// How a capture is settled from the results of its body pumps: the notes in
/// order, and `None` for a complete capture or the error that fails it.
///
/// Request body problems are only noted. Without a replacement the response
/// body decides: a capture failure, a timeout, a read failure or a closed
/// downstream fails the capture. With a replacement, the replacement body
/// decides and problems of the raw upstream body are only noted.
pub open spec fn settlement_spec(
    request: Option<PumpResult>,
    modified_request: Option<PumpResult>,
    response: Option<PumpResult>,
    modified_response: Option<PumpResult>,
    replacement_used: bool,
) -> (Seq<NoteView>, Option<NoteView>) {
    let notes = request_pump_notes(request, false) + request_pump_notes(modified_request, true);
    match response {
        None => (
            notes,
            Some(
                (
                    ErrorStage::ResponseBody,
                    "response_body_task_cancelled"@,
                    "response body capture task was cancelled"@,
                ),
            ),
        ),
        Some(resp) => if replacement_used {
            match modified_response {
                None => (
                    notes,
                    Some(
                        (
                            ErrorStage::ResponseBody,
                            "modified_response_body_task_cancelled"@,
                            "modified response body task was cancelled"@,
                        ),
                    ),
                ),
                Some(m) => {
                    let notes = notes + match m.storage_error {
                        Some(e) => seq![
                            (ErrorStage::ResponseBody, "modified_response_body_store_failed"@, e@),
                        ],
                        None => Seq::empty(),
                    };
                    match m.outcome {
                        PumpOutcome::InputError(e) => (
                            notes,
                            Some((ErrorStage::ResponseBody, "modified_response_body_read_failed"@, e@)),
                        ),
                        PumpOutcome::OutputClosed => (
                            notes,
                            Some(
                                (
                                    ErrorStage::ResponseBody,
                                    "downstream_response_closed"@,
                                    "downstream response body closed before replacement completed"@,
                                ),
                            ),
                        ),
                        _ => {
                            let notes = notes + match resp.storage_error {
                                Some(e) => seq![
                                    (ErrorStage::ResponseBody, "raw_response_body_store_failed"@, e@),
                                ],
                                None => Seq::empty(),
                            } + match resp.outcome {
                                PumpOutcome::FrameTimeout => seq![
                                    (
                                        ErrorStage::ResponseBody,
                                        "raw_response_body_timeout"@,
                                        "upstream response body frame timed out"@,
                                    ),
                                ],
                                PumpOutcome::InputError(e) => seq![
                                    (ErrorStage::ResponseBody, "raw_response_body_read_failed"@, e@),
                                ],
                                _ => Seq::empty(),
                            };
                            (notes, None)
                        },
                    }
                },
            }
        } else {
            match resp.storage_error {
                Some(e) => (notes, Some((ErrorStage::ResponseBody, "response_body_store_failed"@, e@))),
                None => match resp.outcome {
                    PumpOutcome::Complete => (notes, None),
                    PumpOutcome::FrameTimeout => (
                        notes,
                        Some(
                            (
                                ErrorStage::ResponseBody,
                                "response_body_timeout"@,
                                "upstream response body frame timed out"@,
                            ),
                        ),
                    ),
                    PumpOutcome::InputError(e) => (
                        notes,
                        Some((ErrorStage::ResponseBody, "response_body_read_failed"@, e@)),
                    ),
                    PumpOutcome::OutputClosed => (
                        notes,
                        Some(
                            (
                                ErrorStage::ResponseBody,
                                "downstream_response_closed"@,
                                "downstream response body closed before completion"@,
                            ),
                        ),
                    ),
                },
            }
        },
    }
}

/// How a capture ends depends only on its response side: problems with the
/// request bodies are noted but never fail it; with a replacement, the raw
/// upstream body is only noted; a capture that fails, fails at the response
/// body stage.
pub proof fn law_capture_verdict_rests_on_the_response(
    request: Option<PumpResult>,
    modified_request: Option<PumpResult>,
    other_request: Option<PumpResult>,
    other_modified_request: Option<PumpResult>,
    response: Option<PumpResult>,
    other_response: Option<PumpResult>,
    modified_response: Option<PumpResult>,
    replacement_used: bool,
)
    ensures
        settlement_spec(request, modified_request, response, modified_response, replacement_used).1
            == settlement_spec(other_request, other_modified_request, response, modified_response, replacement_used).1,
        response.is_some() && other_response.is_some() ==> settlement_spec(
            request,
            modified_request,
            response,
            modified_response,
            true,
        ).1 == settlement_spec(request, modified_request, other_response, modified_response, true).1,
        settlement_spec(request, modified_request, response, modified_response, replacement_used).1 matches Some(
            v,
        ) ==> v.0 == ErrorStage::ResponseBody,
{
}

/// Without a replacement a capture is complete exactly when the upstream body
/// was stored and read to its end and reached the client; with one, exactly
/// when both bodies reported and the replacement reached the client whole.
pub proof fn law_complete_captures(
    request: Option<PumpResult>,
    modified_request: Option<PumpResult>,
    response: Option<PumpResult>,
    modified_response: Option<PumpResult>,
)
    ensures
        settlement_spec(request, modified_request, response, modified_response, false).1.is_none() <==> (
        response matches Some(r) && r.storage_error.is_none() && r.outcome == PumpOutcome::Complete),
        settlement_spec(request, modified_request, response, modified_response, true).1.is_none() <==> (
        response.is_some() && (modified_response matches Some(m) && !(m.outcome is InputError) && m.outcome
            != PumpOutcome::OutputClosed)),
{
}

fn error_record(stage: ErrorStage, kind: &str, message: &str) -> (r: CaptureError)
    ensures
        note_view(r) == (stage, kind@, message@),
{
    CaptureError { stage, kind: String::from_str(kind), message: String::from_str(message) }
}

fn push_note(notes: &mut Vec<CaptureError>, stage: ErrorStage, kind: &str, message: &str)
    ensures
        final(notes)@.map_values(|e: CaptureError| note_view(e)) == old(notes)@.map_values(
            |e: CaptureError| note_view(e),
        ).push((stage, kind@, message@)),
{
    let ghost before = notes@;
    notes.push(error_record(stage, kind, message));
    assert(notes@.map_values(|e: CaptureError| note_view(e)) =~= before.map_values(
        |e: CaptureError| note_view(e),
    ).push((stage, kind@, message@)));
}

fn push_request_pump_notes(notes: &mut Vec<CaptureError>, result: &Option<PumpResult>, modified: bool)
    ensures
        final(notes)@.map_values(|e: CaptureError| note_view(e)) == old(notes)@.map_values(
            |e: CaptureError| note_view(e),
        ) + request_pump_notes(*result, modified),
{
    let ghost before = notes@.map_values(|e: CaptureError| note_view(e));
    match result {
        None => {
            assert(before + request_pump_notes(*result, modified) =~= before);
        },
        Some(r) => {
            match &r.storage_error {
                Some(e) => {
                    let kind = if modified {
                        "modified_request_body_store_failed"
                    } else {
                        "request_body_store_failed"
                    };
                    push_note(notes, ErrorStage::RequestBody, kind, e.as_str());
                },
                None => {},
            }
            let ghost mid = notes@.map_values(|e: CaptureError| note_view(e));
            match &r.outcome {
                PumpOutcome::InputError(e) => {
                    let kind = if modified {
                        "modified_request_body_read_failed"
                    } else {
                        "request_body_read_failed"
                    };
                    push_note(notes, ErrorStage::RequestBody, kind, e.as_str());
                },
                _ => {},
            }
            assert(notes@.map_values(|e: CaptureError| note_view(e)) =~= before + request_pump_notes(
                *result,
                modified,
            ));
        },
    }
}

/// Settles a capture once its body pumps have reported; a pump that never
/// reported counts as cancelled.
pub fn settle_capture(
    request: Option<PumpResult>,
    modified_request: Option<PumpResult>,
    response: Option<PumpResult>,
    modified_response: Option<PumpResult>,
    replacement_used: bool,
) -> (r: CaptureSettlement)
    requires
        replacement_used && response.is_some() ==> !(modified_response matches Some(m)
            && m.outcome == PumpOutcome::FrameTimeout),
    ensures
        (r.notes@.map_values(|e: CaptureError| note_view(e)), match r.verdict {
            CaptureVerdict::Complete => None,
            CaptureVerdict::Fail(e) => Some(note_view(e)),
        }) == settlement_spec(request, modified_request, response, modified_response, replacement_used),
{
    let mut notes: Vec<CaptureError> = Vec::new();
    assert(notes@.map_values(|e: CaptureError| note_view(e)) =~= Seq::<NoteView>::empty());
    push_request_pump_notes(&mut notes, &request, false);
    push_request_pump_notes(&mut notes, &modified_request, true);
    let resp = match response {
        None => {
            let fail = error_record(
                ErrorStage::ResponseBody,
                "response_body_task_cancelled",
                "response body capture task was cancelled",
            );
            return CaptureSettlement { notes, verdict: CaptureVerdict::Fail(fail) };
        },
        Some(resp) => resp,
    };
    if replacement_used {
        let m = match modified_response {
            None => {
                let fail = error_record(
                    ErrorStage::ResponseBody,
                    "modified_response_body_task_cancelled",
                    "modified response body task was cancelled",
                );
                return CaptureSettlement { notes, verdict: CaptureVerdict::Fail(fail) };
            },
            Some(m) => m,
        };
        match &m.storage_error {
            Some(e) => push_note(
                &mut notes,
                ErrorStage::ResponseBody,
                "modified_response_body_store_failed",
                e.as_str(),
            ),
            None => {},
        }
        match &m.outcome {
            PumpOutcome::InputError(e) => {
                let fail = error_record(
                    ErrorStage::ResponseBody,
                    "modified_response_body_read_failed",
                    e.as_str(),
                );
                return CaptureSettlement { notes, verdict: CaptureVerdict::Fail(fail) };
            },
            PumpOutcome::OutputClosed => {
                let fail = error_record(
                    ErrorStage::ResponseBody,
                    "downstream_response_closed",
                    "downstream response body closed before replacement completed",
                );
                return CaptureSettlement { notes, verdict: CaptureVerdict::Fail(fail) };
            },
            _ => {},
        }
        match &resp.storage_error {
            Some(e) => push_note(
                &mut notes,
                ErrorStage::ResponseBody,
                "raw_response_body_store_failed",
                e.as_str(),
            ),
            None => {},
        }
        match &resp.outcome {
            PumpOutcome::FrameTimeout => push_note(
                &mut notes,
                ErrorStage::ResponseBody,
                "raw_response_body_timeout",
                "upstream response body frame timed out",
            ),
            PumpOutcome::InputError(e) => push_note(
                &mut notes,
                ErrorStage::ResponseBody,
                "raw_response_body_read_failed",
                e.as_str(),
            ),
            _ => {},
        }
        return CaptureSettlement { notes, verdict: CaptureVerdict::Complete };
    }
    let verdict = match &resp.storage_error {
        Some(e) => CaptureVerdict::Fail(
            error_record(ErrorStage::ResponseBody, "response_body_store_failed", e.as_str()),
        ),
        None => match &resp.outcome {
            PumpOutcome::Complete => CaptureVerdict::Complete,
            PumpOutcome::FrameTimeout => CaptureVerdict::Fail(
                error_record(
                    ErrorStage::ResponseBody,
                    "response_body_timeout",
                    "upstream response body frame timed out",
                ),
            ),
            PumpOutcome::InputError(e) => CaptureVerdict::Fail(
                error_record(ErrorStage::ResponseBody, "response_body_read_failed", e.as_str()),
            ),
            PumpOutcome::OutputClosed => CaptureVerdict::Fail(
                error_record(
                    ErrorStage::ResponseBody,
                    "downstream_response_closed",
                    "downstream response body closed before completion",
                ),
            ),
        },
    };
    CaptureSettlement { notes, verdict }
}

/// What one interceptor run produced: its effects and the error it stopped
/// with, if any; or a failure to run it at all.
#[derive(Debug, Clone)]
pub enum ScriptRun {
    Finished { effects: ScriptEffects, error: Option<String> },
    Failed(String),
    WorkerFailed(String),
}

/// Compares two paths as `PathBuf`'s `==` does, component by component; a
/// path always equals itself. Nothing more is claimed of paths that differ.
#[verifier::external_body]
fn paths_equal(a: &PathBuf, b: &PathBuf) -> (r: bool)
    ensures
        *a == *b ==> r,
{
    a == b
}

/// What identifies a stored asset apart from its file.
pub open spec fn asset_record(a: crate::asset::Asset) -> (Seq<char>, u64, Seq<char>, Seq<char>, u64) {
    (a.metadata.id@, a.metadata.size, a.metadata.content_type@, a.metadata.sha256@, a.metadata.created_at)
}

/// Whether a run's body replacement differs from the one already in place:
/// texts compare by content; assets compare by their record and their file.
pub fn replacement_changed(current: &Option<BodyReplacement>, next: &Option<BodyReplacement>) -> (r: bool)
    ensures
        match (*current, *next) {
            (None, None) => !r,
            (Some(BodyReplacement::String(a)), Some(BodyReplacement::String(b))) => r == (a@ != b@),
            (Some(BodyReplacement::Asset(a)), Some(BodyReplacement::Asset(b))) => (a == b ==> !r) && (
            asset_record(a) != asset_record(b) ==> r),
            _ => r,
        },
{
    match (current, next) {
        (None, None) => false,
        (Some(BodyReplacement::String(a)), Some(BodyReplacement::String(b))) => !(*a == *b),
        (Some(BodyReplacement::Asset(a)), Some(BodyReplacement::Asset(b))) => {
            let same = a.metadata.id == b.metadata.id && a.metadata.size == b.metadata.size
                && a.metadata.content_type == b.metadata.content_type && a.metadata.sha256
                == b.metadata.sha256 && a.metadata.created_at == b.metadata.created_at && paths_equal(
                &a.path,
                &b.path,
            );
            !same
        },
        _ => true,
    }
}

/// A run applied to the message: the replacement the I/O layer must prepare,
/// the error the script stopped with (recorded after the replacement is
/// settled), or the failure that kept the run from producing effects.
#[derive(Debug, Clone)]
pub struct RunApplied {
    pub prepare: Option<BodyReplacement>,
    pub script_error: Option<String>,
    pub failure: Option<String>,
}

/// The failure message of a run that produced no effects.
pub open spec fn run_failure(run: ScriptRun) -> Option<Seq<char>> {
    match run {
        ScriptRun::Finished { .. } => None,
        ScriptRun::Failed(m) => Some(m@),
        ScriptRun::WorkerFailed(m) => Some("interceptor worker failed: "@ + m@),
    }
}

fn failure_message(run: ScriptRun) -> (r: RunApplied)
    requires
        !(run is Finished),
    ensures
        r.prepare.is_none(),
        r.script_error.is_none(),
        r.failure.is_some() && Some(r.failure.unwrap()@) == run_failure(run),
{
    match run {
        ScriptRun::Failed(m) => RunApplied { prepare: None, script_error: None, failure: Some(m) },
        ScriptRun::WorkerFailed(m) => {
            let mut message = String::from_str("interceptor worker failed: ");
            message.append(m.as_str());
            RunApplied { prepare: None, script_error: None, failure: Some(message) }
        },
        ScriptRun::Finished { .. } => RunApplied { prepare: None, script_error: None, failure: None },
    }
}

/// Applies a request interceptor run: the request takes the run's method, URI,
/// headers and tags; a replacement that differs from the current one is to be
/// prepared. A run that failed leaves the request as it was.
pub fn apply_request_run(request: &mut RequestData, current_body: &Option<BodyReplacement>, run: ScriptRun) -> (r:
    RunApplied)
    requires
        run matches ScriptRun::Finished { effects, .. } ==> effects.method.is_some() && effects.uri.is_some(),
    ensures
        match run {
            ScriptRun::Finished { effects, error } => {
                &&& *final(request) == (RequestData {
                    method: effects.method.unwrap(),
                    uri: effects.uri.unwrap(),
                    headers: effects.headers,
                    tags: effects.tags,
                    ..*old(request)
                })
                &&& r.failure.is_none()
                &&& r.script_error == error
                &&& (r.prepare.is_some() ==> r.prepare == effects.body)
                &&& (effects.body.is_none() ==> r.prepare.is_none())
                &&& match (*current_body, effects.body) {
                    (Some(BodyReplacement::String(a)), Some(BodyReplacement::String(b))) => r.prepare.is_some()
                        == (a@ != b@),
                    (Some(BodyReplacement::Asset(a)), Some(BodyReplacement::Asset(b))) => (a == b
                        ==> r.prepare.is_none()) && (asset_record(a) != asset_record(b) ==> r.prepare.is_some()),
                    (_, None) => r.prepare.is_none(),
                    _ => r.prepare.is_some(),
                }
            },
            _ => *final(request) == *old(request) && r.prepare.is_none() && r.script_error.is_none()
                && r.failure.is_some() && Some(r.failure.unwrap()@) == run_failure(run),
        },
{
    match run {
        ScriptRun::Finished { effects, error } => {
            let changed = replacement_changed(current_body, &effects.body);
            let ScriptEffects { method, uri, status: _, headers, body, tags, modifications: _ } = effects;
            request.method = method.unwrap();
            request.uri = uri.unwrap();
            request.headers = headers;
            request.tags = tags;
            let prepare = if changed {
                body
            } else {
                None
            };
            RunApplied { prepare, script_error: error, failure: None }
        },
        _ => failure_message(run),
    }
}

/// Applies a response interceptor run: the response takes the run's status and
/// headers and the request takes its tags; a replacement that differs from
/// the current one is to be prepared. A run that failed changes nothing.
pub fn apply_response_run(
    response: &mut ResponseData,
    tags: &mut RequestTags,
    current_body: &Option<BodyReplacement>,
    run: ScriptRun,
) -> (r: RunApplied)
    requires
        run matches ScriptRun::Finished { effects, .. } ==> effects.status.is_some(),
    ensures
        match run {
            ScriptRun::Finished { effects, error } => {
                &&& *final(response) == (ResponseData {
                    status: effects.status.unwrap(),
                    headers: effects.headers,
                    ..*old(response)
                })
                &&& *final(tags) == effects.tags
                &&& r.failure.is_none()
                &&& r.script_error == error
                &&& (r.prepare.is_some() ==> r.prepare == effects.body)
                &&& (effects.body.is_none() ==> r.prepare.is_none())
                &&& match (*current_body, effects.body) {
                    (Some(BodyReplacement::String(a)), Some(BodyReplacement::String(b))) => r.prepare.is_some()
                        == (a@ != b@),
                    (Some(BodyReplacement::Asset(a)), Some(BodyReplacement::Asset(b))) => (a == b
                        ==> r.prepare.is_none()) && (asset_record(a) != asset_record(b) ==> r.prepare.is_some()),
                    (_, None) => r.prepare.is_none(),
                    _ => r.prepare.is_some(),
                }
            },
            _ => *final(response) == *old(response) && *final(tags) == *old(tags) && r.prepare.is_none()
                && r.script_error.is_none() && r.failure.is_some() && Some(r.failure.unwrap()@)
                == run_failure(run),
        },
{
    match run {
        ScriptRun::Finished { effects, error } => {
            let changed = replacement_changed(current_body, &effects.body);
            let ScriptEffects { method: _, uri: _, status, headers, body, tags: new_tags, modifications: _ } =
                effects;
            response.status = status.unwrap();
            response.headers = headers;
            *tags = new_tags;
            let prepare = if changed {
                body
            } else {
                None
            };
            RunApplied { prepare, script_error: error, failure: None }
        },
        _ => failure_message(run),
    }
}

/// The headers with the first one named like `name` (up to ASCII case) removed.
pub open spec fn without_first<V>(s: Seq<(Seq<char>, V)>, name: Seq<char>) -> Seq<(Seq<char>, V)> {
    match crate::headers::find_first_ci(s, name) {
        Some(i) => s.remove(i),
        None => s,
    }
}

/// What a run leaves on record: the messages noted as script errors, in
/// order, and the run's combined error.
#[derive(Debug, Clone)]
pub struct RunRecord {
    pub notes: Vec<String>,
    pub run_error: Option<String>,
}

/// The notes and combined error of a run: a run that failed has its failure as
/// both; otherwise a replacement that could not be prepared comes first and
/// the script's own error second, joined by `; `.
pub open spec fn run_record_spec(
    failure: Option<Seq<char>>,
    prepared: Option<Result<(), Seq<char>>>,
    script_error: Option<Seq<char>>,
) -> (Seq<Seq<char>>, Option<Seq<char>>) {
    match failure {
        Some(m) => (seq![m], Some(m)),
        None => {
            let first: Seq<Seq<char>> = match prepared {
                Some(Err(m)) => seq![m],
                _ => Seq::empty(),
            };
            let second: Seq<Seq<char>> = match script_error {
                Some(e) => seq![e],
                None => Seq::empty(),
            };
            let notes = first + second;
            let error = if notes.len() == 0 {
                None
            } else if notes.len() == 1 {
                Some(notes[0])
            } else {
                Some(notes[0] + "; "@ + notes[1])
            };
            (notes, error)
        },
    }
}

/// What a run's record says: a run that produced no effects records that
/// failure alone; otherwise a failed preparation comes first and the script's
/// own error second, each noted, and the run's error joins them with `; `;
/// with neither, nothing is noted and the run has no error.
pub proof fn law_run_records(
    failure: Option<Seq<char>>,
    prepared: Option<Result<(), Seq<char>>>,
    script_error: Option<Seq<char>>,
    p: Seq<char>,
    e: Seq<char>,
)
    ensures
        failure matches Some(m) ==> run_record_spec(failure, prepared, script_error) == (seq![m], Some(m)),
        failure.is_none() && !(prepared matches Some(Err(_))) && script_error.is_none() ==> run_record_spec(
            failure,
            prepared,
            script_error,
        ) == (Seq::<Seq<char>>::empty(), None::<Seq<char>>),
        failure.is_none() ==> run_record_spec(failure, Some(Err(p)), Some(e)) == (seq![p, e], Some(p + "; "@ + e)),
        failure.is_none() && !(prepared matches Some(Err(_))) ==> run_record_spec(failure, prepared, Some(e)) == (
            seq![e],
            Some(e),
        ),
        failure.is_none() ==> run_record_spec(failure, Some(Err(p)), None) == (seq![p], Some(p)),
{
    assert(Seq::<Seq<char>>::empty() + seq![e] =~= seq![e]);
    assert(seq![p] + Seq::<Seq<char>>::empty() =~= seq![p]);
    assert(seq![p] + seq![e] =~= seq![p, e]);
    assert(Seq::<Seq<char>>::empty() + Seq::<Seq<char>>::empty() =~= Seq::<Seq<char>>::empty());
}

/// Settles one run once its replacement, if any, has been prepared: a
/// prepared replacement becomes the body and drops the `content-encoding`
/// header; failures are noted.
pub fn settle_run(
    applied: RunApplied,
    prepared: Option<Result<(), String>>,
    headers: &mut HeaderValues,
    body: &mut Option<BodyReplacement>,
) -> (r: RunRecord)
    requires
        applied.failure.is_none() ==> applied.prepare.is_some() == prepared.is_some(),
    ensures
        (r.notes.deep_view(), match r.run_error {
            Some(e) => Some(e@),
            None => None,
        }) == run_record_spec(
            match applied.failure {
                Some(m) => Some(m@),
                None => None,
            },
            match prepared {
                Some(Ok(())) => Some(Ok(())),
                Some(Err(m)) => Some(Err(m@)),
                None => None,
            },
            match applied.script_error {
                Some(e) => Some(e@),
                None => None,
            },
        ),
        (applied.failure.is_none() && (prepared matches Some(Ok(_)))) ==> *final(body) == applied.prepare
            && final(headers)@ == without_first(old(headers)@, "content-encoding"@),
        !(applied.failure.is_none() && (prepared matches Some(Ok(_)))) ==> *final(body) == *old(body)
            && final(headers)@ == old(headers)@,
{
    let mut notes: Vec<String> = Vec::new();
    let mut run_error: Option<String> = None;
    match applied.failure {
        Some(m) => {
            notes.push(m.clone());
            assert(notes.deep_view() =~= seq![m@]);
            return RunRecord { notes, run_error: Some(m) };
        },
        None => {},
    }
    match prepared {
        Some(result) => match result {
            Ok(_) => {
                *body = applied.prepare;
                remove_header_value(headers, "content-encoding");
            },
            Err(m) => {
                notes.push(m.clone());
                append_run_error(&mut run_error, m);
            },
        },
        None => {},
    }
    match applied.script_error {
        Some(e) => {
            notes.push(e.clone());
            append_run_error(&mut run_error, e);
        },
        None => {},
    }
    proof {
        reveal_strlit("; ");
    }
    assert(notes.deep_view() =~= run_record_spec(
        None,
        match prepared {
            Some(Ok(())) => Some(Ok(())),
            Some(Err(m)) => Some(Err(m@)),
            None => None,
        },
        match applied.script_error {
            Some(e) => Some(e@),
            None => None,
        },
    ).0);
    RunRecord { notes, run_error }
}

/// How long the proxy waits for an upstream response head unless the request
/// says otherwise, in milliseconds.
pub const UPSTREAM_TIMEOUT_MS: u64 = 60000;

/// What happens to a request once its interceptors have run.
#[derive(Debug, Clone, Copy, PartialEq, Eq)]
pub enum RequestRoute {
    /// Answer with the proxy's CA certificate.
    CaDownload,
    /// Answer locally with an empty `200` that the response interceptors shape.
    Skip,
    /// Send it upstream.
    Forward,
}

/// How the final request is handled.
#[derive(Debug, Clone, Copy, PartialEq, Eq)]
pub struct RequestPlan {
    pub route: RequestRoute,
    /// Pacing of the body sent upstream, in bytes per second.
    pub request_speed: Option<u64>,
    /// How long to wait for the upstream response head, in milliseconds.
    pub upstream_timeout_ms: u64,
    /// Whether the client's own body is sent upstream (no replacement, no local answer).
    pub forward_original: bool,
    /// Whether any upstream TLS certificate is accepted for this request.
    pub tls_insecure: bool,
}

/// Plans the final request. An upgrade request is neither paced nor given a
/// custom timeout; otherwise the special tags set both. The CA download and
/// the `_crab_skip` tag answer locally.
pub fn plan_request(request: &RequestData, upgrade_request: bool, has_replacement: bool) -> (r: RequestPlan)
    ensures
        r.request_speed == if upgrade_request {
            None
        } else {
            special_tag_spec(request.tags@, "_crab_req_speed"@)
        },
        r.upstream_timeout_ms == if upgrade_request {
            UPSTREAM_TIMEOUT_MS
        } else {
            match special_tag_spec(request.tags@, "_crab_req_timeout"@) {
                Some(t) => t,
                None => UPSTREAM_TIMEOUT_MS,
            }
        },
        r.route == if crate::routing::ca_download_spec(*request) {
            RequestRoute::CaDownload
        } else if has_key(request.tags@, "_crab_skip"@) {
            RequestRoute::Skip
        } else {
            RequestRoute::Forward
        },
        r.forward_original == (!has_replacement && r.route == RequestRoute::Forward),
        r.tls_insecure == (tls_insecure_spec(lookup(request.tags@, "_crab_tls_insecure"@)) == Ok::<
            bool,
            (),
        >(true)),
{
    let (request_speed, upstream_timeout_ms) = if upgrade_request {
        (None, UPSTREAM_TIMEOUT_MS)
    } else {
        let timeout = match parse_special_tag(&request.tags, req_timeout_tag()) {
            Some(t) => t,
            None => UPSTREAM_TIMEOUT_MS,
        };
        (parse_special_tag(&request.tags, req_speed_tag()), timeout)
    };
    let route = if crate::routing::is_ca_download(request) {
        RequestRoute::CaDownload
    } else if request.tags.contains_key(skip_tag()) {
        RequestRoute::Skip
    } else {
        RequestRoute::Forward
    };
    let forward = match route {
        RequestRoute::Forward => true,
        _ => false,
    };
    RequestPlan {
        route,
        request_speed,
        upstream_timeout_ms,
        forward_original: !has_replacement && forward,
        tls_insecure: tls_insecure_from_tags(&request.tags),
    }
}

/// Which body goes back to the client.
#[derive(Debug, Clone, Copy, PartialEq, Eq)]
pub enum DownstreamBody {
    /// The prepared replacement, with its length.
    Replacement,
    /// No body, for a `HEAD` request.
    EmptyForHead,
    /// The upstream body as it streams in.
    Forwarded,
}

/// How the final response is sent back.
#[derive(Debug, Clone, Copy, PartialEq, Eq)]
pub struct ResponsePlan {
    /// Pacing of the body sent downstream, in bytes per second.
    pub response_speed: Option<u64>,
    /// How long to wait for each upstream body frame, in milliseconds.
    pub frame_timeout_ms: Option<u64>,
    /// Whether the request was `HEAD`, so the response keeps its length header.
    pub head_response: bool,
    /// Whether the upstream body itself is forwarded.
    pub forward_raw: bool,
    pub body: DownstreamBody,
}

/// Plans the final response: the special tags pace it and bound its frames; a
/// replacement or a `HEAD` request keep the upstream body from being forwarded.
pub fn plan_response(request: &RequestData, replacement_used: bool) -> (r: ResponsePlan)
    ensures
        r.response_speed == special_tag_spec(request.tags@, "_crab_resp_speed"@),
        r.frame_timeout_ms == special_tag_spec(request.tags@, "_crab_resp_bodyframe_timeout"@),
        r.head_response == crate::headers::ci_eq(request.method@, "HEAD"@),
        r.forward_raw == (!replacement_used && !r.head_response),
        r.body == if replacement_used {
            DownstreamBody::Replacement
        } else if r.head_response {
            DownstreamBody::EmptyForHead
        } else {
            DownstreamBody::Forwarded
        },
{
    let head_response = crate::headers::eq_ignore_ascii_case(request.method.as_str(), "HEAD");
    let body = if replacement_used {
        DownstreamBody::Replacement
    } else if head_response {
        DownstreamBody::EmptyForHead
    } else {
        DownstreamBody::Forwarded
    };
    ResponsePlan {
        response_speed: parse_special_tag(&request.tags, resp_speed_tag()),
        frame_timeout_ms: parse_special_tag(&request.tags, resp_bodyframe_timeout_tag()),
        head_response,
        forward_raw: !replacement_used && !head_response,
        body,
    }
}

/// The `content-length` a response to the client gets: the known body length,
/// unless the length header is kept as is or the status carries no body.
pub fn response_content_length(status: u16, preserve_length: bool, body_length: Option<u64>) -> (r: Option<
    u64,
>)
    ensures
        r == if !preserve_length && !(100 <= status < 200 || status == 204 || status == 304) {
            body_length
        } else {
            None
        },
{
    if !preserve_length && response_status_has_body(status) {
        body_length
    } else {
        None
    }
}

/// The response that serves the proxy's CA certificate: `200`, HTTP/1.1, and a
/// `content-type` of `application/x-x509-ca-cert` alone.
pub fn ca_certificate_response() -> (r: ResponseData)
    ensures
        r.status == 200,
        r.version@ == "HTTP/1.1"@,
        r.headers@ == seq![("content-type"@, seq!["application/x-x509-ca-cert"@])],
{
    let mut headers = HeaderValues::new();
    let mut values: Vec<String> = Vec::new();
    values.push(String::from_str("application/x-x509-ca-cert"));
    assert(values.deep_view() =~= seq!["application/x-x509-ca-cert"@]);
    let _ = headers.insert(String::from_str("content-type"), values);
    assert(headers@ =~= seq![("content-type"@, seq!["application/x-x509-ca-cert"@])]);
    ResponseData { status: 200, version: String::from_str("HTTP/1.1"), headers }
}

/// The local answer a `_crab_skip` request gets in place of an upstream
/// response: `200`, HTTP/1.1, no headers; its body is empty.
pub open spec fn skip_answer(r: ResponseData) -> bool {
    r.status == 200 && r.version@ == "HTTP/1.1"@ && r.headers@.len() == 0
}

/// The response the response interceptors of a `_crab_skip` request start
/// from: `200`, HTTP/1.1, no headers and an empty body.
pub fn skip_response() -> (r: (ResponseData, Vec<u8>))
    ensures
        skip_answer(r.0),
        r.1@.len() == 0,
{
    let headers = HeaderValues::new();
    (ResponseData { status: 200, version: String::from_str("HTTP/1.1"), headers }, Vec::new())
}

/// The response a request answered locally starts from: the CA certificate
/// response for a CA download, the empty `200` for `_crab_skip`, and none for
/// a request sent upstream.
pub fn local_answer(route: RequestRoute) -> (r: Option<ResponseData>)
    ensures
        route == RequestRoute::Forward <==> r.is_none(),
        route == RequestRoute::Skip ==> (r matches Some(a) && skip_answer(a)),
        route == RequestRoute::CaDownload ==> (r matches Some(a) && a.status == 200 && a.version@ == "HTTP/1.1"@
            && a.headers@ == seq![("content-type"@, seq!["application/x-x509-ca-cert"@])]),
{
    match route {
        RequestRoute::CaDownload => Some(ca_certificate_response()),
        RequestRoute::Skip => Some(skip_response().0),
        RequestRoute::Forward => None,
    }
}

/// The status of an upstream response that switches protocols.
pub const SWITCHING_PROTOCOLS: u16 = 101;

/// Why the upstream exchange failed: its capture error and the status and
/// text the client gets.
#[derive(Debug, Clone, PartialEq, Eq)]
pub struct UpstreamFailure {
    pub error: CaptureError,
    pub status: u16,
    pub text: String,
}

/// The failure recorded when the upstream request failed with `message`, or
/// timed out when `message` is `None`.
pub fn upstream_failure(message: Option<String>) -> (r: UpstreamFailure)
    ensures
        match message {
            Some(m) => note_view(r.error) == (ErrorStage::Upstream, "upstream_failed"@, m@) && r.status
                == 502 && r.text@ == "upstream request failed"@,
            None => note_view(r.error) == (
                ErrorStage::Upstream,
                "upstream_timeout"@,
                "upstream request timed out"@,
            ) && r.status == 504 && r.text@ == "upstream request timed out"@,
        },
{
    match message {
        Some(m) => UpstreamFailure {
            error: CaptureError { stage: ErrorStage::Upstream, kind: String::from_str("upstream_failed"), message: m },
            status: 502,
            text: String::from_str("upstream request failed"),
        },
        None => UpstreamFailure {
            error: error_record(ErrorStage::Upstream, "upstream_timeout", "upstream request timed out"),
            status: 504,
            text: String::from_str("upstream request timed out"),
        },
    }
}

/// The capture error noted when interceptor `name` failed with `message`.
pub fn script_error_record(name: &str, message: &str) -> (r: CaptureError)
    ensures
        note_view(r) == (ErrorStage::Interceptor, "interceptor_runtime_error"@, name@ + ": "@ + message@),
{
    let mut text = String::from_str(name);
    text.append(": ");
    text.append(message);
    CaptureError { stage: ErrorStage::Interceptor, kind: String::from_str("interceptor_runtime_error"), message: text }
}

/// The name a script run at a breakpoint is recorded under.
pub open spec fn temporary_script_name() -> Seq<char> {
    "临时脚本"@
}

/// The record of a temporary script run at a breakpoint, and the capture
/// error it notes: the run is recorded as temporary and completed, at the
/// breakpoint's phase and position, under the temporary name, with the
/// script's hash, content, changes and error; a script error is also noted on
/// the capture, prefixed with the temporary name.
pub fn temporary_run(
    phase: InterceptorKind,
    position: usize,
    content: &str,
    modifications: Vec<Modification>,
    error: Option<String>,
) -> (r: (InterceptorRun, Option<CaptureError>))
    ensures
        r.0.origin == InterceptorExecutionOrigin::Temporary,
        r.0.completed,
        r.0.phase == phase,
        r.0.position == position,
        r.0.name@ == temporary_script_name(),
        r.0.script_hash@ == crate::wire::hex_encode(
            crate::model::sha256_digest(vstd::utf8::encode_utf8(content@)),
        ),
        r.0.content@ == content@,
        r.0.modifications == modifications,
        r.0.error == error,
        match error {
            Some(m) => r.1 matches Some(e) && note_view(e) == (
                ErrorStage::Interceptor,
                "interceptor_runtime_error"@,
                temporary_script_name() + ": "@ + m@,
            ),
            None => r.1.is_none(),
        },
{
    let name = "临时脚本";
    let note = match &error {
        Some(m) => Some(script_error_record(name, m.as_str())),
        None => None,
    };
    let run = InterceptorRun {
        origin: InterceptorExecutionOrigin::Temporary,
        completed: true,
        phase,
        position,
        name: String::from_str(name),
        script_hash: crate::model::script_content_hash(content),
        content: String::from_str(content),
        modifications,
        error,
    };
    (run, note)
}

} // verus!
