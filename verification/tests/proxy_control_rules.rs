use proxy_crab_mitm::chain::{ChainAction, ChainEvent, InterceptorChain};
use proxy_crab_mitm::connect::{
    plan_after_handshake, plan_connect, ConnectInspection, ConnectPlan, HandshakeOutcome, HandshakePlan,
};
use proxy_crab_mitm::error::Error;
use proxy_crab_mitm::lifecycle::{
    admit_client, begin_start, begin_stop, bind_outcome, config_change_rotates, ensure_proxy_stopped,
    ConnectionSlots, MAX_CLIENT_CONNECTIONS,
};
use proxy_crab_mitm::model::{AppConfig, CaptureError, ErrorStage, InterceptorKind, ProxyStatus};

fn config(session: Option<u64>, routing: Option<&str>) -> AppConfig {
    AppConfig {
        proxy_host: "127.0.0.1".to_string(),
        proxy_port: 8080,
        api_port: 9000,
        routing_script_name: routing.map(|s| s.to_string()),
        active_session_id: session,
    }
}

fn running() -> ProxyStatus {
    ProxyStatus::Running { host: "127.0.0.1".to_string(), port: 8080, started_at: 7 }
}

#[test]
fn at_most_256_client_connections_are_admitted() {
    assert_eq!(MAX_CLIENT_CONNECTIONS, 256);
    assert!(admit_client(0));
    assert!(admit_client(255));
    assert!(!admit_client(256));
    let mut slots = ConnectionSlots::new();
    for _ in 0..256 {
        assert!(slots.try_admit());
    }
    assert_eq!(slots.count(), 256);
    assert!(!slots.try_admit());
    assert_eq!(slots.count(), 256);
    slots.release();
    assert_eq!(slots.count(), 255);
    assert!(slots.try_admit());
}

#[test]
fn only_effective_changes_rotate_running_connections() {
    let current = config(Some(1), Some("route"));
    assert!(!config_change_rotates(&current, &config(Some(1), Some("route")), &running()));
    assert!(config_change_rotates(&current, &config(Some(2), Some("route")), &running()));
    assert!(config_change_rotates(&current, &config(Some(1), Some("other")), &running()));
    assert!(config_change_rotates(&current, &config(Some(1), None), &running()));
    let mut port_only = config(Some(1), Some("route"));
    port_only.proxy_port = 9999;
    assert!(!config_change_rotates(&current, &port_only, &running()));
    assert!(!config_change_rotates(&current, &config(Some(2), None), &ProxyStatus::Stopped));
}

#[test]
fn start_is_refused_unless_stopped_or_failed() {
    assert_eq!(begin_start(&ProxyStatus::Stopped), Ok(ProxyStatus::Starting));
    let failed = ProxyStatus::Failed { message: "bind".to_string() };
    assert_eq!(begin_start(&failed), Ok(ProxyStatus::Starting));
    for status in [ProxyStatus::Starting, ProxyStatus::Stopping, running()] {
        assert_eq!(begin_start(&status), Err(Error::ProxyAlreadyRunning));
        assert_eq!(ensure_proxy_stopped(&status), Err(Error::ProxyMustBeStopped));
    }
    assert_eq!(ensure_proxy_stopped(&ProxyStatus::Stopped), Ok(()));
    assert_eq!(ensure_proxy_stopped(&failed), Ok(()));
}

#[test]
fn bind_and_stop_transitions() {
    assert_eq!(bind_outcome(Ok(("127.0.0.1".to_string(), 8080)), 7), running());
    assert_eq!(
        bind_outcome(Err("address in use".to_string()), 7),
        ProxyStatus::Failed { message: "address in use".to_string() }
    );
    assert_eq!(begin_stop(&ProxyStatus::Stopped), None);
    assert_eq!(begin_stop(&running()), Some(ProxyStatus::Stopping));
}

fn failure(stage: ErrorStage, kind: &str, message: &str) -> CaptureError {
    CaptureError { stage, kind: kind.to_string(), message: message.to_string() }
}

#[test]
fn connect_tunnels_are_intercepted_only_for_tls() {
    assert_eq!(plan_connect(&ConnectInspection::Bytes(vec![0x16, 0x03, 0x01])), ConnectPlan::Intercept);
    assert_eq!(plan_connect(&ConnectInspection::Bytes(b"GET / HTTP/1.1".to_vec())), ConnectPlan::Tunnel);
    assert_eq!(
        plan_connect(&ConnectInspection::Bytes(Vec::new())),
        ConnectPlan::Fail(failure(
            ErrorStage::Connect,
            "client_closed",
            "CONNECT tunnel closed before a payload was received"
        ))
    );
    assert_eq!(
        plan_connect(&ConnectInspection::ReadFailed("reset".to_string())),
        ConnectPlan::Fail(failure(ErrorStage::Connect, "connect_inspection_failed", "reset"))
    );
    assert_eq!(
        plan_connect(&ConnectInspection::TimedOut),
        ConnectPlan::Fail(failure(
            ErrorStage::Connect,
            "connect_inspection_timeout",
            "CONNECT payload inspection timed out"
        ))
    );
}

#[test]
fn handshake_outcomes_choose_protocol_or_failure() {
    assert_eq!(
        plan_after_handshake(&HandshakeOutcome::Established(Some(b"h2".to_vec()))),
        HandshakePlan::Serve { http2: true }
    );
    assert_eq!(
        plan_after_handshake(&HandshakeOutcome::Established(Some(b"http/1.1".to_vec()))),
        HandshakePlan::Serve { http2: false }
    );
    assert_eq!(plan_after_handshake(&HandshakeOutcome::Established(None)), HandshakePlan::Serve { http2: false });
    assert_eq!(
        plan_after_handshake(&HandshakeOutcome::Failed("received fatal alert: UnknownCA".to_string())),
        HandshakePlan::Fail(failure(
            ErrorStage::TlsHandshake,
            "client_rejected_ca",
            "received fatal alert: UnknownCA"
        ))
    );
    assert_eq!(
        plan_after_handshake(&HandshakeOutcome::TimedOut),
        HandshakePlan::Fail(failure(
            ErrorStage::TlsHandshake,
            "client_tls_handshake_timeout",
            "client TLS handshake timed out"
        ))
    );
}

#[test]
fn chain_runs_each_script_in_order_then_stores_the_message() {
    let (mut chain, first) = InterceptorChain::start(InterceptorKind::Request, 2);
    assert_eq!(first, ChainAction::BeginRun { position: 0 });
    assert_eq!(chain.step(ChainEvent::Stored(Ok(()))), ChainAction::Execute { position: 0 });
    assert_eq!(chain.step(ChainEvent::Ran { prepare: true }), ChainAction::Prepare { position: 0 });
    assert_eq!(chain.step(ChainEvent::Prepared), ChainAction::Record { position: 0 });
    assert_eq!(chain.step(ChainEvent::Stored(Ok(()))), ChainAction::StoreTags);
    assert_eq!(chain.step(ChainEvent::Stored(Ok(()))), ChainAction::BeginRun { position: 1 });
    assert_eq!(chain.step(ChainEvent::Stored(Ok(()))), ChainAction::Execute { position: 1 });
    assert_eq!(chain.step(ChainEvent::Ran { prepare: false }), ChainAction::Record { position: 1 });
    assert_eq!(chain.step(ChainEvent::Stored(Ok(()))), ChainAction::StoreTags);
    assert_eq!(chain.step(ChainEvent::Stored(Ok(()))), ChainAction::StoreMessage);
    assert_eq!(chain.step(ChainEvent::Stored(Ok(()))), ChainAction::Forward);
    assert_eq!(chain.step(ChainEvent::Stored(Ok(()))), ChainAction::Unexpected);
}

#[test]
fn chain_storage_failures_end_it() {
    let (mut chain, first) = InterceptorChain::start(InterceptorKind::Response, 0);
    assert_eq!(first, ChainAction::StoreMessage);
    assert_eq!(
        chain.step(ChainEvent::Stored(Err("disk full".to_string()))),
        ChainAction::Fail {
            error: failure(ErrorStage::ResponseBody, "capture_response_update_failed", "disk full"),
            answer: "failed to persist response metadata".to_string(),
        }
    );
    assert_eq!(chain.step(ChainEvent::Prepared), ChainAction::Unexpected);

    let (mut chain, _) = InterceptorChain::start(InterceptorKind::Request, 1);
    assert_eq!(chain.step(ChainEvent::Prepared), ChainAction::Unexpected);
    assert_eq!(
        chain.step(ChainEvent::Stored(Err("locked".to_string()))),
        ChainAction::Fail {
            error: failure(ErrorStage::Interceptor, "interceptor_history_store_failed", "locked"),
            answer: "capture storage unavailable".to_string(),
        }
    );

    let (mut chain, _) = InterceptorChain::start(InterceptorKind::Request, 1);
    chain.step(ChainEvent::Stored(Ok(())));
    chain.step(ChainEvent::Ran { prepare: false });
    chain.step(ChainEvent::Stored(Ok(())));
    assert_eq!(
        chain.step(ChainEvent::Stored(Err("tags".to_string()))),
        ChainAction::Fail {
            error: failure(ErrorStage::Interceptor, "capture_tags_store_failed", "tags"),
            answer: "capture storage unavailable".to_string(),
        }
    );

    let (mut chain, _) = InterceptorChain::start(InterceptorKind::Request, 0);
    assert_eq!(
        chain.step(ChainEvent::Stored(Err("io".to_string()))),
        ChainAction::Fail {
            error: failure(ErrorStage::RequestBody, "capture_update_failed", "io"),
            answer: "capture storage unavailable".to_string(),
        }
    );
}

#[test]
fn certificate_and_finalize_failures_fail_the_tunnel() {
    assert_eq!(proxy_crab_mitm::connect::certificate_outcome(Ok(())), None);
    assert_eq!(
        proxy_crab_mitm::connect::certificate_outcome(Err("bad host".to_string())),
        Some(failure(ErrorStage::TlsHandshake, "certificate_generation_failed", "bad host"))
    );
    assert_eq!(
        proxy_crab_mitm::connect::plan_after_established(true, Ok(())),
        HandshakePlan::Serve { http2: true }
    );
    assert_eq!(
        proxy_crab_mitm::connect::plan_after_established(false, Err("locked".to_string())),
        HandshakePlan::Fail(failure(ErrorStage::TlsHandshake, "connect_capture_finalize_failed", "locked"))
    );
}
