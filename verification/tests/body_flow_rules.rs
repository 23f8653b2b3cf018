use std::path::PathBuf;

use proxy_crab_mitm::body_flow::{
    abandoned_result, after_trailers, chunk_delay_nanos, finish_buffered, next_chunk_len,
    pump_failure_message, read_result, with_writer_finish, BufferedFinish, DeferredBodyRead,
    PumpEnd, PumpOutcome, PumpResult, PumpState, ResponseProgress, TransferFinal, TransferLedger,
};

fn result(outcome: PumpOutcome, storage_error: Option<&str>) -> PumpResult {
    PumpResult {
        outcome,
        storage_error: storage_error.map(str::to_string),
    }
}

#[test]
fn failure_messages_put_the_capture_error_first() {
    assert_eq!(pump_failure_message(&result(PumpOutcome::Complete, None)), None);
    assert_eq!(
        pump_failure_message(&result(PumpOutcome::FrameTimeout, Some("disk full"))).as_deref(),
        Some("disk full")
    );
    assert_eq!(
        pump_failure_message(&result(PumpOutcome::FrameTimeout, None)).as_deref(),
        Some("response body frame timed out")
    );
    assert_eq!(
        pump_failure_message(&result(PumpOutcome::OutputClosed, None)).as_deref(),
        Some("body output closed before completion")
    );
    assert_eq!(
        pump_failure_message(&result(PumpOutcome::InputError("reset".to_string()), None))
            .as_deref(),
        Some("reset")
    );
}

#[test]
fn deferred_empty_body_can_be_read_without_a_file() {
    let path = PathBuf::from("/tmp/7-request.body");
    assert_eq!(
        read_result(&result(PumpOutcome::Complete, None), false, &path),
        Ok(DeferredBodyRead::Empty)
    );
    assert_eq!(
        read_result(&result(PumpOutcome::Complete, None), true, &path),
        Ok(DeferredBodyRead::File(path.clone()))
    );
    assert_eq!(
        read_result(&result(PumpOutcome::FrameTimeout, None), true, &path),
        Err("response body frame timed out".to_string())
    );
}

#[test]
fn buffered_bodies_are_replayed_only_when_forwarded_cleanly() {
    let clean = result(PumpOutcome::Complete, None);
    assert_eq!(
        finish_buffered(&clean, true, true),
        BufferedFinish::Replay { from_file: true }
    );
    assert_eq!(
        finish_buffered(&clean, true, false),
        BufferedFinish::Stop { error_frame: None }
    );
    let failed = result(PumpOutcome::InputError("reset".to_string()), None);
    assert_eq!(
        finish_buffered(&failed, true, true),
        BufferedFinish::Stop {
            error_frame: Some("reset".to_string())
        }
    );
    assert_eq!(
        after_trailers(clean.clone(), false).outcome,
        PumpOutcome::OutputClosed
    );
    assert_eq!(after_trailers(clean.clone(), true), clean);
    assert_eq!(
        abandoned_result(None),
        result(PumpOutcome::OutputClosed, None)
    );
    assert_eq!(
        with_writer_finish(clean, Some("close failed".to_string())).storage_error.as_deref(),
        Some("close failed")
    );
}

#[test]
fn pump_state_tracks_forwarding_and_capture() {
    let mut state = PumpState::new(true, true);
    assert!(state.forwards_errors());
    state.capture_failed("write failed".to_string());
    assert!(!state.capturing);
    state.send_failed();
    assert!(!state.forwards_errors());
    let finished = state.clone().finish(PumpEnd::Finished);
    assert_eq!(finished.outcome, PumpOutcome::OutputClosed);
    assert_eq!(finished.storage_error.as_deref(), Some("write failed"));
    assert_eq!(
        PumpState::new(true, false).finish(PumpEnd::TimedOut).outcome,
        PumpOutcome::FrameTimeout
    );
    assert_eq!(
        PumpState::new(true, false).finish(PumpEnd::Finished).outcome,
        PumpOutcome::Complete
    );
}

#[test]
fn paced_bodies_send_a_fiftieth_of_the_rate_per_chunk() {
    assert_eq!(next_chunk_len(1000, 100), 2);
    assert_eq!(next_chunk_len(1000, 101), 3);
    assert_eq!(next_chunk_len(1, 100), 1);
    assert_eq!(next_chunk_len(1000, 0), 1);
    assert_eq!(next_chunk_len(0, 100), 0);
    assert_eq!(chunk_delay_nanos(2, 100), 20_000_000);
    assert_eq!(chunk_delay_nanos(1, 3), 333_333_334);
    assert_eq!(chunk_delay_nanos(usize::MAX, 1), u64::MAX);
}

#[test]
fn bypass_transfers_finish_once() {
    let mut ledger = TransferLedger::new();
    ledger.add_upload(10);
    ledger.add_download(20);
    ledger.add_download(5);
    assert_eq!(
        ledger.complete(Some(200)),
        Some(TransferFinal::Complete {
            status: Some(200),
            upload_bytes: 10,
            download_bytes: 25,
        })
    );
    assert_eq!(ledger.fail("late".to_string()), None);
    assert_eq!(ledger.complete(None), None);
    let mut failed = TransferLedger::new();
    assert_eq!(
        failed.fail("reset".to_string()),
        Some(TransferFinal::Failed {
            error: "reset".to_string(),
            upload_bytes: 0,
            download_bytes: 0,
        })
    );
    let mut wrapping = TransferLedger::new();
    wrapping.add_upload(u64::MAX);
    wrapping.add_upload(2);
    assert_eq!(wrapping.upload_bytes, 1);
}

#[test]
fn response_progress_sees_the_promised_end() {
    let mut progress = ResponseProgress::new(Some(5), false);
    assert!(progress.dropped_early());
    assert!(!progress.on_data(3));
    assert!(progress.on_data(4));
    assert!(!progress.dropped_early());
    let empty = ResponseProgress::new(Some(0), false);
    assert!(!empty.dropped_early());
    let mut open_ended = ResponseProgress::new(None, false);
    assert!(!open_ended.on_data(100));
    open_ended.on_end();
    assert!(!open_ended.dropped_early());
}
