//! Bypassed traffic: the record kept of each request or tunnel that went
//! through the proxy uncaptured, and the rules for deleting those records.
use vstd::prelude::*;
use vstd::string::*;

use crate::numbers::{decimal_text, u64_text};
use crate::text::str_eq;

verus! {

/// Where a bypassed exchange stands.
#[derive(Debug, Clone, Copy, PartialEq, Eq, Structural)]
pub enum BypassOutcome {
    InProgress,
    Success,
    Failed,
}

/// The record of one bypassed exchange.
#[derive(Debug, Clone, PartialEq, Eq)]
pub struct BypassEntry {
    pub id: u64,
    pub created_at: u64,
    pub updated_at: u64,
    pub source: String,
    pub method: String,
    pub uri: String,
    pub version: String,
    pub reason: String,
    pub outcome: BypassOutcome,
    pub response_status: Option<u16>,
    pub error: Option<String>,
    pub upload_bytes: Option<u64>,
    pub download_bytes: Option<u64>,
}

/// The name an outcome is stored under.
pub open spec fn outcome_name_spec(o: BypassOutcome) -> Seq<char> {
    match o {
        BypassOutcome::InProgress => "in_progress"@,
        BypassOutcome::Success => "success"@,
        BypassOutcome::Failed => "failed"@,
    }
}

/// The name an outcome is stored under.
pub fn outcome_name(o: BypassOutcome) -> (r: &'static str)
    ensures
        r@ == outcome_name_spec(o),
{
    match o {
        BypassOutcome::InProgress => "in_progress",
        BypassOutcome::Success => "success",
        BypassOutcome::Failed => "failed",
    }
}

/// The outcome a stored name stands for; unknown names read as in progress.
pub open spec fn parse_outcome_spec(s: Seq<char>) -> BypassOutcome {
    if s == "success"@ {
        BypassOutcome::Success
    } else if s == "failed"@ {
        BypassOutcome::Failed
    } else {
        BypassOutcome::InProgress
    }
}

/// The outcome a stored name stands for.
pub fn parse_outcome(s: &str) -> (r: BypassOutcome)
    ensures
        r == parse_outcome_spec(s@),
{
    if str_eq(s, "success") {
        BypassOutcome::Success
    } else if str_eq(s, "failed") {
        BypassOutcome::Failed
    } else {
        BypassOutcome::InProgress
    }
}

/// Reading back a stored outcome name gives the outcome.
pub proof fn law_outcome_name_round_trip(o: BypassOutcome)
    ensures
        parse_outcome_spec(outcome_name_spec(o)) == o,
{
    reveal_strlit("in_progress");
    reveal_strlit("success");
    reveal_strlit("failed");
    assert("in_progress"@.len() != "success"@.len());
    assert("in_progress"@.len() != "failed"@.len());
    assert("failed"@.len() != "success"@.len());
}

/// Whether a record may be deleted: anything finished, and anything still in
/// progress that began before the current proxy run (or when no run is going),
/// since such an exchange can no longer finish.
pub open spec fn deletable_spec(outcome: BypassOutcome, created_at: u64, run_started_at: Option<u64>) -> bool {
    outcome != BypassOutcome::InProgress || match run_started_at {
        None => true,
        Some(s) => created_at < s,
    }
}

/// Whether a record may be deleted.
pub fn is_deletable(outcome: BypassOutcome, created_at: u64, run_started_at: Option<u64>) -> (r: bool)
    ensures
        r == deletable_spec(outcome, created_at, run_started_at),
{
    outcome != BypassOutcome::InProgress || match run_started_at {
        None => true,
        Some(s) => created_at < s,
    }
}

/// Deleting bypass records keeps only the exchanges still running in the
/// current proxy run: a finished record, successful or failed, may always be
/// deleted; with no proxy running every record may; an in-progress record of
/// a running proxy may be deleted exactly when it predates that run.
pub proof fn law_only_running_exchanges_are_kept(outcome: BypassOutcome, created_at: u64, run_started_at: Option<u64>)
    ensures
        outcome == BypassOutcome::Success ==> deletable_spec(outcome, created_at, run_started_at),
        outcome == BypassOutcome::Failed ==> deletable_spec(outcome, created_at, run_started_at),
        run_started_at.is_none() ==> deletable_spec(outcome, created_at, run_started_at),
        run_started_at matches Some(started) ==> (outcome == BypassOutcome::InProgress ==> (deletable_spec(
            outcome,
            created_at,
            run_started_at,
        ) <==> created_at < started)),
{
}

/// A batch of finished records is never refused, whatever their creation
/// times and the run's start: none of them is an undeletable one.
pub proof fn law_finished_batches_are_deletable(candidates: Seq<(u64, BypassOutcome, u64)>, run_started_at: Option<u64>)
    requires
        forall|i: int| 0 <= i < candidates.len() ==> #[trigger] candidates[i].1 != BypassOutcome::InProgress,
    ensures
        forall|i: int|
            0 <= i < candidates.len() ==> deletable_spec(#[trigger] candidates[i].1, candidates[i].2, run_started_at),
{
    assert forall|i: int| 0 <= i < candidates.len() implies deletable_spec(
        #[trigger] candidates[i].1,
        candidates[i].2,
        run_started_at,
    ) by {
        law_only_running_exchanges_are_kept(candidates[i].1, candidates[i].2, run_started_at);
    }
}

/// The first of the records asked to be deleted that may not be, by id; a
/// batch with such a record deletes nothing.
pub fn first_undeletable(
    candidates: &Vec<(u64, BypassOutcome, u64)>,
    run_started_at: Option<u64>,
) -> (r: Option<u64>)
    ensures
        match r {
            Some(id) => exists|i: int|
                0 <= i < candidates@.len() && #[trigger] candidates@[i].0 == id && !deletable_spec(
                    candidates@[i].1,
                    candidates@[i].2,
                    run_started_at,
                ),
            None => forall|i: int|
                0 <= i < candidates@.len() ==> deletable_spec(
                    #[trigger] candidates@[i].1,
                    candidates@[i].2,
                    run_started_at,
                ),
        },
{
    let n = candidates.len();
    let mut i: usize = 0;
    while i < n
        invariant
            n == candidates@.len(),
            i <= n,
            forall|k: int| 0 <= k < i ==> deletable_spec(#[trigger] candidates@[k].1, candidates@[k].2, run_started_at),
        decreases n - i,
    {
        let (id, outcome, created_at) = candidates[i];
        if !is_deletable(outcome, created_at, run_started_at) {
            return Some(id);
        }
        i = i + 1;
    }
    None
}

/// Whether stopping the proxy marks a record as failed: it is still in
/// progress and its id is within the run's range.
pub fn marked_on_shutdown(id: u64, outcome: BypassOutcome, min_id: u64, max_id: u64) -> (r: bool)
    ensures
        r == (outcome == BypassOutcome::InProgress && min_id <= id <= max_id),
{
    outcome == BypassOutcome::InProgress && min_id <= id && id <= max_id
}

/// The error a record stopped by shutdown is given.
pub fn shutdown_error() -> (r: &'static str)
    ensures
        r@ == "proxy_shutdown"@,
{
    "proxy_shutdown"
}

/// The message for a record that is still in progress, `bypass entry {id} is still in progress`.
pub fn in_progress_message(id: u64) -> (r: String)
    ensures
        r@ == "bypass entry "@ + decimal_text(id as nat) + " is still in progress"@,
{
    let mut m = String::from_str("bypass entry ");
    let digits = u64_text(id);
    m.append(digits.as_str());
    m.append(" is still in progress");
    m
}

/// The message for a record that does not exist, `bypass entry {id} not found`.
pub fn missing_entry_message(id: u64) -> (r: String)
    ensures
        r@ == "bypass entry "@ + decimal_text(id as nat) + " not found"@,
{
    let mut m = String::from_str("bypass entry ");
    let digits = u64_text(id);
    m.append(digits.as_str());
    m.append(" not found");
    m
}

} // verus!
