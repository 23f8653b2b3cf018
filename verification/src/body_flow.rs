//! How a message body is moved through the proxy: the bookkeeping of one
//! body pump (forwarding, capturing, failing), the reply to a script that
//! reads a buffered body, pacing of slow bodies, and the byte accounting of
//! bypassed transfers. The pumps themselves run in the I/O layer, which
//! reports each event here and does what the answer says.
use vstd::prelude::*;
use vstd::string::*;

use std::path::PathBuf;

verus! {

/// How a body pump ended.
#[derive(Debug, Clone, PartialEq, Eq)]
pub enum PumpOutcome {
    Complete,
    InputError(String),
    FrameTimeout,
    OutputClosed,
}

/// How a body pump ended, and whether capturing its bytes failed on the way.
#[derive(Debug, Clone, PartialEq, Eq)]
pub struct PumpResult {
    pub outcome: PumpOutcome,
    pub storage_error: Option<String>,
}

/// Why a pump that did not complete failed, as its readers see it: the
/// capture failure first, then the input error, the frame timeout or the
/// closed output. `None` for a complete pump that stored its bytes.
pub open spec fn failure_message_spec(result: PumpResult) -> Option<Seq<char>> {
    match result.storage_error {
        Some(e) => Some(e@),
        None => match result.outcome {
            PumpOutcome::Complete => None,
            PumpOutcome::InputError(e) => Some(e@),
            PumpOutcome::FrameTimeout => Some("response body frame timed out"@),
            PumpOutcome::OutputClosed => Some("body output closed before completion"@),
        },
    }
}

/// A pump fails exactly when its storage failed or its body did not complete,
/// and a storage failure is the one reported, whatever happened to the body.
pub proof fn law_pump_failures(result: PumpResult)
    ensures
        failure_message_spec(result).is_none() <==> result.storage_error.is_none() && result.outcome
            == PumpOutcome::Complete,
        result.storage_error matches Some(e) ==> failure_message_spec(result) == Some(e@),
{
}

/// The message a failed pump reports, or `None` when it completed cleanly.
pub fn pump_failure_message(result: &PumpResult) -> (r: Option<String>)
    ensures
        match r {
            Some(m) => failure_message_spec(*result) == Some(m@),
            None => failure_message_spec(*result).is_none(),
        },
{
    match &result.storage_error {
        Some(e) => Some(e.clone()),
        None => match &result.outcome {
            PumpOutcome::Complete => None,
            PumpOutcome::InputError(e) => Some(e.clone()),
            PumpOutcome::FrameTimeout => Some(String::from_str("response body frame timed out")),
            PumpOutcome::OutputClosed => Some(String::from_str("body output closed before completion")),
        },
    }
}

/// What a script that reads a buffered body gets.
#[derive(Debug, Clone, PartialEq, Eq)]
pub enum DeferredBodyRead {
    Empty,
    File(PathBuf),
}

/// The answer to a read of a body that has been buffered: the capture file
/// when bytes were stored, nothing when the body was empty, and the failure
/// message when the pump failed.
pub fn read_result(result: &PumpResult, stored: bool, path: &PathBuf) -> (r: Result<
    DeferredBodyRead,
    String,
>)
    ensures
        match failure_message_spec(*result) {
            Some(m) => r matches Err(e) && e@ == m,
            None => r == if stored {
                Ok::<DeferredBodyRead, String>(DeferredBodyRead::File(*path))
            } else {
                Ok(DeferredBodyRead::Empty)
            },
        },
{
    match pump_failure_message(result) {
        Some(m) => Err(m),
        None => {
            if stored {
                Ok(DeferredBodyRead::File(path.clone()))
            } else {
                Ok(DeferredBodyRead::Empty)
            }
        },
    }
}

/// The pump result once the capture file has been closed: a failure to close
/// it becomes the capture error.
pub fn with_writer_finish(result: PumpResult, finish_error: Option<String>) -> (r: PumpResult)
    ensures
        r.outcome == result.outcome,
        r.storage_error == match finish_error {
            Some(e) => Some(e),
            None => result.storage_error,
        },
{
    match finish_error {
        Some(e) => PumpResult { outcome: result.outcome, storage_error: Some(e) },
        None => result,
    }
}

/// The result reported when a buffered body is dropped before being finished:
/// what buffering found, or a closed output when it was never read.
pub fn abandoned_result(completed: Option<PumpResult>) -> (r: PumpResult)
    ensures
        r == match completed {
            Some(c) => c,
            None => PumpResult { outcome: PumpOutcome::OutputClosed, storage_error: None },
        },
{
    match completed {
        Some(c) => c,
        None => PumpResult { outcome: PumpOutcome::OutputClosed, storage_error: None },
    }
}

/// What to do with a body that a script already buffered, once the proxy
/// decides whether to forward it.
#[derive(Debug, Clone, PartialEq, Eq)]
pub enum BufferedFinish {
    /// Send the buffered bytes on, from the capture file when there is one.
    Replay { from_file: bool },
    /// Send nothing more; when an error frame is given, end the forwarded
    /// stream with it.
    Stop { error_frame: Option<String> },
}

/// A buffered body is replayed only when it is forwarded and buffering
/// completed without a capture error; a forwarded body that failed ends with
/// its failure message.
pub fn finish_buffered(result: &PumpResult, stored: bool, forward: bool) -> (r: BufferedFinish)
    ensures
        forward && failure_message_spec(*result).is_none() ==> r == (BufferedFinish::Replay {
            from_file: stored,
        }),
        !forward ==> r == (BufferedFinish::Stop { error_frame: None }),
        forward && failure_message_spec(*result).is_some() ==> (r matches BufferedFinish::Stop {
            error_frame: Some(m),
        } && Some(m@) == failure_message_spec(*result)),
{
    match pump_failure_message(result) {
        None => {
            if forward {
                BufferedFinish::Replay { from_file: stored }
            } else {
                BufferedFinish::Stop { error_frame: None }
            }
        },
        Some(m) => {
            if forward {
                BufferedFinish::Stop { error_frame: Some(m) }
            } else {
                BufferedFinish::Stop { error_frame: None }
            }
        },
    }
}

/// The result of a replay once the recorded trailers have been sent: a closed
/// output while sending them turns a complete replay into a closed one.
pub fn after_trailers(result: PumpResult, trailers_sent: bool) -> (r: PumpResult)
    ensures
        r.storage_error == result.storage_error,
        r.outcome == if result.outcome == PumpOutcome::Complete && !trailers_sent {
            PumpOutcome::OutputClosed
        } else {
            result.outcome
        },
{
    let complete = matches!(result.outcome, PumpOutcome::Complete);
    if complete && !trailers_sent {
        PumpResult { outcome: PumpOutcome::OutputClosed, storage_error: result.storage_error }
    } else {
        result
    }
}

/// How the read side of a pump ended.
#[derive(Debug, Clone, PartialEq, Eq)]
pub enum PumpEnd {
    /// The body ended.
    Finished,
    /// Reading a frame failed with this message.
    InputError(String),
    /// No frame came within the frame timeout.
    TimedOut,
}

/// The bookkeeping of one body pump: whether frames still go downstream,
/// whether the downstream side went away, whether bytes are still captured,
/// and the first capture failure.
#[derive(Debug, Clone, PartialEq, Eq)]
pub struct PumpState {
    pub forwarding: bool,
    pub output_closed: bool,
    pub capturing: bool,
    pub storage_error: Option<String>,
}

impl PumpState {
    /// A pump that forwards when asked to and captures when it has a file.
    pub fn new(forward: bool, capture: bool) -> (r: Self)
        ensures
            r == (PumpState {
                forwarding: forward,
                output_closed: false,
                capturing: capture,
                storage_error: None,
            }),
    {
        PumpState { forwarding: forward, output_closed: false, capturing: capture, storage_error: None }
    }

    /// Writing a data frame to the capture file failed: stop capturing and
    /// keep the failure.
    pub fn capture_failed(&mut self, error: String)
        requires
            old(self).capturing,
        ensures
            *final(self) == (PumpState { capturing: false, storage_error: Some(error), ..*old(self) }),
    {
        self.capturing = false;
        self.storage_error = Some(error);
    }

    /// Sending a frame downstream failed: stop forwarding, and remember that
    /// the output closed.
    pub fn send_failed(&mut self)
        requires
            old(self).forwarding,
        ensures
            *final(self) == (PumpState { forwarding: false, output_closed: true, ..*old(self) }),
    {
        self.forwarding = false;
        self.output_closed = true;
    }

    /// Whether a read failure or timeout is passed downstream as an error frame.
    pub fn forwards_errors(&self) -> (r: bool)
        ensures
            r == self.forwarding,
    {
        self.forwarding
    }

    /// How the pump ended: a body that ended after the output closed counts as
    /// a closed output.
    pub fn finish(self, end: PumpEnd) -> (r: PumpResult)
        ensures
            r.storage_error == self.storage_error,
            r.outcome == match end {
                PumpEnd::Finished => if self.output_closed {
                    PumpOutcome::OutputClosed
                } else {
                    PumpOutcome::Complete
                },
                PumpEnd::InputError(m) => PumpOutcome::InputError(m),
                PumpEnd::TimedOut => PumpOutcome::FrameTimeout,
            },
    {
        let outcome = match end {
            PumpEnd::Finished => if self.output_closed {
                PumpOutcome::OutputClosed
            } else {
                PumpOutcome::Complete
            },
            PumpEnd::InputError(m) => PumpOutcome::InputError(m),
            PumpEnd::TimedOut => PumpOutcome::FrameTimeout,
        };
        PumpResult { outcome, storage_error: self.storage_error }
    }
}

/// How many chunks per second a paced body is cut into.
pub const PACE_CHUNKS_PER_SECOND: u64 = 50;

/// The size of the next paced chunk: a fiftieth of the rate, rounded up and at
/// least one byte, but no more than what is left.
pub open spec fn pace_chunk_len(remaining: nat, bytes_per_second: nat) -> nat {
    let target = if bytes_per_second == 0 {
        1
    } else {
        let t = (bytes_per_second + 49) / 50;
        if t == 0 {
            1
        } else {
            t
        }
    };
    if target < remaining {
        target
    } else {
        remaining
    }
}

/// A paced body is sent in chunks of about a fiftieth of a second's bytes:
/// never empty while bytes remain, never more than remain, and, while enough
/// remain, at least a fiftieth of the rate.
pub proof fn law_paced_chunks(remaining: nat, bytes_per_second: nat)
    ensures
        remaining > 0 ==> pace_chunk_len(remaining, bytes_per_second) >= 1,
        pace_chunk_len(remaining, bytes_per_second) <= remaining,
        remaining * 50 >= bytes_per_second + 49 && bytes_per_second > 0 ==> pace_chunk_len(remaining, bytes_per_second)
            * 50 >= bytes_per_second,
        bytes_per_second > 0 ==> pace_chunk_len(remaining, bytes_per_second) * 50 < bytes_per_second + 50
            || pace_chunk_len(remaining, bytes_per_second) == 1,
{
    if bytes_per_second > 0 {
        let t = (bytes_per_second + 49) / 50;
        assert(t * 50 <= bytes_per_second + 49 && bytes_per_second + 49 < t * 50 + 50) by (nonlinear_arith)
            requires t == (bytes_per_second + 49) / 50;
    }
}

/// The size of the next chunk of a paced body.
pub fn next_chunk_len(remaining: usize, bytes_per_second: u64) -> (r: usize)
    ensures
        r == pace_chunk_len(remaining as nat, bytes_per_second as nat),
{
    let target: u64 = if bytes_per_second == 0 {
        1
    } else {
        let t = bytes_per_second / PACE_CHUNKS_PER_SECOND + if bytes_per_second % PACE_CHUNKS_PER_SECOND
            == 0 {
            0
        } else {
            1
        };
        if t == 0 {
            1
        } else {
            t
        }
    };
    assert(bytes_per_second > 0 ==> target == (bytes_per_second + 49) / 50 || target == 1);
    if (target as u128) < (remaining as u128) {
        target as usize
    } else {
        remaining
    }
}

/// How long to wait before sending a chunk, in nanoseconds: its share of one
/// second at the given rate, rounded up, and at most `u64::MAX`.
pub open spec fn pace_delay_nanos(chunk_len: int, bytes_per_second: int) -> int {
    let n = (chunk_len * 1_000_000_000 + bytes_per_second - 1) / bytes_per_second;
    if n > u64::MAX {
        u64::MAX as int
    } else {
        n
    }
}

/// A paced chunk never goes out faster than the rate: its wait is at least
/// the time the rate needs for its bytes, and, unless the wait saturates, less
/// than one nanosecond's worth more.
pub proof fn law_paced_delay_keeps_the_rate(chunk_len: int, bytes_per_second: int)
    requires
        chunk_len >= 0,
        bytes_per_second > 0,
    ensures
        pace_delay_nanos(chunk_len, bytes_per_second) < u64::MAX ==> pace_delay_nanos(chunk_len, bytes_per_second)
            * bytes_per_second >= chunk_len * 1_000_000_000,
        pace_delay_nanos(chunk_len, bytes_per_second) < u64::MAX ==> (pace_delay_nanos(chunk_len, bytes_per_second)
            - 1) * bytes_per_second < chunk_len * 1_000_000_000,
{
    let t = chunk_len * 1_000_000_000;
    let n = (t + bytes_per_second - 1) / bytes_per_second;
    assert(n * bytes_per_second >= t && (n - 1) * bytes_per_second < t) by (nonlinear_arith)
        requires
            n == (t + bytes_per_second - 1) / bytes_per_second,
            bytes_per_second > 0,
            t >= 0,
    ;
}

/// The wait before sending a chunk of `chunk_len` bytes at the given rate.
pub fn chunk_delay_nanos(chunk_len: usize, bytes_per_second: u64) -> (r: u64)
    requires
        bytes_per_second > 0,
    ensures
        r == pace_delay_nanos(chunk_len as int, bytes_per_second as int),
{
    let total: u128 = chunk_len as u128 * 1_000_000_000u128;
    let rate: u128 = bytes_per_second as u128;
    assert(total == chunk_len * 1_000_000_000);
    let n: u128 = total / rate + if total % rate == 0 {
        0
    } else {
        1
    };
    assert(n == (chunk_len * 1_000_000_000 + bytes_per_second - 1) / (bytes_per_second as int)) by (
    nonlinear_arith)
        requires
            total == chunk_len * 1_000_000_000,
            rate == bytes_per_second,
            rate > 0,
            n == total / rate + if total % rate == 0 {
                0int
            } else {
                1int
            },
    ;
    if n > u64::MAX as u128 {
        u64::MAX
    } else {
        n as u64
    }
}

/// How a bypassed transfer is finally recorded.
#[derive(Debug, Clone, PartialEq, Eq)]
pub enum TransferFinal {
    Complete { status: Option<u16>, upload_bytes: u64, download_bytes: u64 },
    Failed { error: String, upload_bytes: u64, download_bytes: u64 },
}

/// The byte counts of a bypassed transfer and whether it has been recorded as
/// finished. A transfer is recorded as finished at most once.
#[derive(Debug, Clone, PartialEq, Eq)]
pub struct TransferLedger {
    pub upload_bytes: u64,
    pub download_bytes: u64,
    pub finalized: bool,
}

impl TransferLedger {
    /// A transfer that has moved nothing yet.
    pub fn new() -> (r: Self)
        ensures
            r == (TransferLedger { upload_bytes: 0, download_bytes: 0, finalized: false }),
    {
        TransferLedger { upload_bytes: 0, download_bytes: 0, finalized: false }
    }

    /// Counts bytes sent upstream; the count wraps like the counter it models.
    pub fn add_upload(&mut self, bytes: u64)
        ensures
            final(self).upload_bytes == (if old(self).upload_bytes + bytes > u64::MAX {
                old(self).upload_bytes + bytes - u64::MAX - 1
            } else {
                old(self).upload_bytes + bytes
            }),
            final(self).download_bytes == old(self).download_bytes,
            final(self).finalized == old(self).finalized,
    {
        self.upload_bytes = self.upload_bytes.wrapping_add(bytes);
    }

    /// Counts bytes sent downstream; the count wraps like the counter it models.
    pub fn add_download(&mut self, bytes: u64)
        ensures
            final(self).download_bytes == (if old(self).download_bytes + bytes > u64::MAX {
                old(self).download_bytes + bytes - u64::MAX - 1
            } else {
                old(self).download_bytes + bytes
            }),
            final(self).upload_bytes == old(self).upload_bytes,
            final(self).finalized == old(self).finalized,
    {
        self.download_bytes = self.download_bytes.wrapping_add(bytes);
    }

    /// Records the transfer as complete, unless it was already recorded.
    pub fn complete(&mut self, status: Option<u16>) -> (r: Option<TransferFinal>)
        ensures
            (*final(self), r) == finalize_spec(
                *old(self),
                TransferFinal::Complete {
                    status,
                    upload_bytes: old(self).upload_bytes,
                    download_bytes: old(self).download_bytes,
                },
            ),
    {
        if self.finalized {
            return None;
        }
        self.finalized = true;
        Some(
            TransferFinal::Complete {
                status,
                upload_bytes: self.upload_bytes,
                download_bytes: self.download_bytes,
            },
        )
    }

    /// Records the transfer as failed, unless it was already recorded.
    pub fn fail(&mut self, error: String) -> (r: Option<TransferFinal>)
        ensures
            (*final(self), r) == finalize_spec(
                *old(self),
                TransferFinal::Failed {
                    error,
                    upload_bytes: old(self).upload_bytes,
                    download_bytes: old(self).download_bytes,
                },
            ),
    {
        if self.finalized {
            return None;
        }
        self.finalized = true;
        Some(
            TransferFinal::Failed {
                error,
                upload_bytes: self.upload_bytes,
                download_bytes: self.download_bytes,
            },
        )
    }
}

/// What recording a transfer as finished gives: nothing when it was already
/// recorded, else the final record built by `record`.
pub open spec fn finalize_spec(l: TransferLedger, record: TransferFinal) -> (TransferLedger, Option<TransferFinal>) {
    if l.finalized {
        (l, None)
    } else {
        (TransferLedger { finalized: true, ..l }, Some(record))
    }
}

/// A transfer is recorded as finished at most once: once one final record has
/// been made, completing or failing again records nothing and changes nothing.
pub proof fn law_transfer_finalizes_once(l: TransferLedger, first: TransferFinal, second: TransferFinal)
    ensures
        finalize_spec(finalize_spec(l, first).0, second).1.is_none(),
        finalize_spec(finalize_spec(l, first).0, second).0 == finalize_spec(l, first).0,
{
}

/// Where a bypassed response body stands: how many bytes its length still
/// promises, if it declared one, and whether its end has been seen.
#[derive(Debug, Clone, PartialEq, Eq)]
pub struct ResponseProgress {
    pub remaining: Option<u64>,
    pub reached_end: bool,
}

impl ResponseProgress {
    /// The progress of a body with this exact length, if known; a body that is
    /// already at its end, or promises no bytes, has reached its end.
    pub fn new(exact_len: Option<u64>, at_end: bool) -> (r: Self)
        ensures
            r.remaining == exact_len,
            r.reached_end == (at_end || exact_len == Some(0u64)),
    {
        let reached_end = at_end || match exact_len {
            Some(n) => n == 0,
            None => false,
        };
        ResponseProgress { remaining: exact_len, reached_end }
    }

    /// Counts a data frame; returns whether the promised length has now been
    /// delivered, which completes the transfer.
    pub fn on_data(&mut self, len: u64) -> (r: bool)
        ensures
            final(self).remaining == match old(self).remaining {
                Some(n) => Some(if n > len { (n - len) as u64 } else { 0u64 }),
                None => None,
            },
            r == (final(self).remaining == Some(0u64)),
            final(self).reached_end == (old(self).reached_end || r),
    {
        match self.remaining {
            Some(n) => {
                let left = n.saturating_sub(len);
                self.remaining = Some(left);
                if left == 0 {
                    self.reached_end = true;
                    true
                } else {
                    false
                }
            },
            None => false,
        }
    }

    /// The body ended or failed: its end has been seen.
    pub fn on_end(&mut self)
        ensures
            final(self).remaining == old(self).remaining,
            final(self).reached_end,
    {
        self.reached_end = true;
    }

    /// Whether dropping the body now means the downstream side closed early,
    /// which fails the transfer.
    pub fn dropped_early(&self) -> (r: bool)
        ensures
            r == !self.reached_end,
    {
        !self.reached_end
    }
}

} // verus!
