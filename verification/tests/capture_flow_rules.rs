use proxy_crab_mitm::body_flow::{PumpOutcome, PumpResult};
use proxy_crab_mitm::capture_flow::{
    ca_certificate_response, plan_request, plan_response, response_content_length, script_error_record, settle_capture,
    upstream_failure, CaptureVerdict, DownstreamBody, RequestRoute, UPSTREAM_TIMEOUT_MS,
};
use proxy_crab_mitm::headers::is_upgrade_request;
use proxy_crab_mitm::migration::{plan_migrations, CURRENT_WORKSPACE_SCHEMA_VERSION};
use proxy_crab_mitm::model::{ErrorStage, HeaderValues, RequestData, RequestTags, SessionMetadata};
use proxy_crab_mitm::routing::{
    decide_route, is_ca_download, routing_authority, RouteDecision, RoutingOutcome,
};

fn request(method: &str, uri: &str, tags: &[(&str, &str)]) -> RequestData {
    let mut t = RequestTags::new();
    for (k, v) in tags {
        t.insert(k.to_string(), v.to_string());
    }
    RequestData {
        method: method.to_string(),
        uri: uri.to_string(),
        version: "HTTP/1.1".to_string(),
        headers: HeaderValues::new(),
        tags: t,
    }
}

fn complete() -> PumpResult {
    PumpResult {
        outcome: PumpOutcome::Complete,
        storage_error: None,
    }
}

#[test]
fn head_and_not_modified_preserve_content_length() {
    // `None` keeps the upstream `content-length` ("42") as it is.
    assert_eq!(response_content_length(200, true, Some(0)), None);
    assert_eq!(response_content_length(304, false, Some(0)), None);
    assert_eq!(response_content_length(200, false, Some(0)), Some(0));
    assert_eq!(response_content_length(204, false, Some(5)), None);
}

#[test]
fn complete_pumps_complete_the_capture() {
    let s = settle_capture(Some(complete()), None, Some(complete()), None, false);
    assert!(s.notes.is_empty());
    assert_eq!(s.verdict, CaptureVerdict::Complete);
}

#[test]
fn missing_response_pump_fails_as_cancelled() {
    let s = settle_capture(None, None, None, None, false);
    match s.verdict {
        CaptureVerdict::Fail(e) => {
            assert_eq!(e.stage, ErrorStage::ResponseBody);
            assert_eq!(e.kind, "response_body_task_cancelled");
        }
        CaptureVerdict::Complete => panic!("expected failure"),
    }
}

#[test]
fn response_failures_name_their_cause() {
    let timeout = PumpResult {
        outcome: PumpOutcome::FrameTimeout,
        storage_error: None,
    };
    let s = settle_capture(None, None, Some(timeout.clone()), None, false);
    assert!(matches!(s.verdict, CaptureVerdict::Fail(ref e) if e.kind == "response_body_timeout"));

    // A replacement survives a raw body frame timeout, which is only noted.
    let s = settle_capture(None, None, Some(timeout), Some(complete()), true);
    assert_eq!(s.verdict, CaptureVerdict::Complete);
    assert_eq!(s.notes.len(), 1);
    assert_eq!(s.notes[0].kind, "raw_response_body_timeout");

    let closed = PumpResult {
        outcome: PumpOutcome::OutputClosed,
        storage_error: None,
    };
    let s = settle_capture(None, None, Some(closed), None, false);
    assert!(matches!(s.verdict, CaptureVerdict::Fail(ref e) if e.kind == "downstream_response_closed"));

    let stored = PumpResult {
        outcome: PumpOutcome::InputError("reset".to_string()),
        storage_error: Some("disk full".to_string()),
    };
    let s = settle_capture(Some(stored.clone()), None, Some(stored), None, false);
    assert_eq!(s.notes.len(), 2);
    assert_eq!(s.notes[0].kind, "request_body_store_failed");
    assert_eq!(s.notes[1].kind, "request_body_read_failed");
    assert!(matches!(s.verdict, CaptureVerdict::Fail(ref e) if e.kind == "response_body_store_failed" && e.message == "disk full"));
}

#[test]
fn request_plan_follows_special_tags() {
    let r = request(
        "POST",
        "http://example.test/upload",
        &[("_crab_req_speed", "100"), ("_crab_req_timeout", "250")],
    );
    let plan = plan_request(&r, false, false);
    assert_eq!(plan.route, RequestRoute::Forward);
    assert_eq!(plan.request_speed, Some(100));
    assert_eq!(plan.upstream_timeout_ms, 250);
    assert!(plan.forward_original);
    assert!(!plan.tls_insecure);

    let upgrade = plan_request(&r, true, true);
    assert_eq!(upgrade.request_speed, None);
    assert_eq!(upgrade.upstream_timeout_ms, UPSTREAM_TIMEOUT_MS);
    assert!(!upgrade.forward_original);

    let skip = request("GET", "http://example.test/", &[("_crab_skip", "")]);
    assert_eq!(plan_request(&skip, false, false).route, RequestRoute::Skip);

    let ca = request("GET", "http://proxy.crab/ca.crt", &[]);
    assert!(is_ca_download(&ca));
    assert_eq!(plan_request(&ca, false, false).route, RequestRoute::CaDownload);
    assert!(!is_ca_download(&request("POST", "http://proxy.crab/ca.crt", &[])));
}

#[test]
fn response_plan_keeps_head_bodies_empty() {
    let head = request("head", "http://example.test/", &[("_crab_resp_speed", "7")]);
    let plan = plan_response(&head, false);
    assert!(plan.head_response);
    assert!(!plan.forward_raw);
    assert_eq!(plan.body, DownstreamBody::EmptyForHead);
    assert_eq!(plan.response_speed, Some(7));
    let get = request("GET", "http://example.test/", &[]);
    assert_eq!(plan_response(&get, true).body, DownstreamBody::Replacement);
    assert_eq!(plan_response(&get, false).body, DownstreamBody::Forwarded);
}

#[test]
fn upstream_failures_map_to_gateway_statuses() {
    let failed = upstream_failure(Some("refused".to_string()));
    assert_eq!(failed.status, 502);
    assert_eq!(failed.error.kind, "upstream_failed");
    assert_eq!(failed.error.message, "refused");
    let timed_out = upstream_failure(None);
    assert_eq!(timed_out.status, 504);
    assert_eq!(timed_out.text, "upstream request timed out");
    let e = script_error_record("rewrite", "boom");
    assert_eq!(e.message, "rewrite: boom");
    assert_eq!(e.kind, "interceptor_runtime_error");
}

#[test]
fn routing_decisions() {
    let session = SessionMetadata {
        id: 3,
        name: "Main".to_string(),
        created_at: 0,
        description: None,
        tags: Vec::new(),
    };
    assert!(matches!(
        decide_route(RoutingOutcome::Returned(Some(true)), Some(session.clone())),
        RouteDecision::Session(ref s) if s.id == 3
    ));
    assert!(matches!(
        decide_route(RoutingOutcome::Returned(Some(false)), Some(session.clone())),
        RouteDecision::Bypass(ref why) if why == "script_bypass"
    ));
    assert!(matches!(
        decide_route(RoutingOutcome::ScriptError, Some(session)),
        RouteDecision::Bypass(ref why) if why == "routing_script_error"
    ));
    assert!(matches!(
        decide_route(RoutingOutcome::NoScript, None),
        RouteDecision::Bypass(ref why) if why == "no_active_session"
    ));
}

#[test]
fn new_workspace_is_labeled_with_current_schema_version() {
    let steps = plan_migrations(0).unwrap();
    assert_eq!(steps, vec![0, 1, 2]);
    assert_eq!(*steps.last().unwrap() + 1, CURRENT_WORKSPACE_SCHEMA_VERSION);
    assert!(plan_migrations(CURRENT_WORKSPACE_SCHEMA_VERSION).unwrap().is_empty());
}

#[test]
fn newer_workspace_version_is_rejected() {
    let error = plan_migrations(CURRENT_WORKSPACE_SCHEMA_VERSION + 1).unwrap_err();
    assert!(error.contains("newer than supported"));
    assert_eq!(
        error,
        "workspace schema version 4 is newer than supported version 3"
    );
}

#[test]
fn upgrade_requests_are_recognized() {
    let mut headers = HeaderValues::new();
    assert!(!is_upgrade_request(&headers));
    headers.insert("connection".to_string(), vec!["keep-alive, Upgrade".to_string()]);
    assert!(is_upgrade_request(&headers));
    let mut only_upgrade = HeaderValues::new();
    only_upgrade.insert("upgrade".to_string(), vec!["websocket".to_string()]);
    assert!(is_upgrade_request(&only_upgrade));
    let mut close = HeaderValues::new();
    close.insert("connection".to_string(), vec!["close".to_string(), "upgrade".to_string()]);
    assert!(!is_upgrade_request(&close));
}

#[test]
fn origin_form_ca_download_uses_the_host_header() {
    let mut request = request("GET", "/ca.crt", &[]);
    assert!(!is_ca_download(&request));
    request
        .headers
        .insert("Host".to_string(), vec!["proxy.crab:8089".to_string()]);
    assert!(is_ca_download(&request));
    assert_eq!(routing_authority(&request), "proxy.crab:8089");
    let absolute = request_with_host("http://example.test:8080/ca.crt");
    assert_eq!(routing_authority(&absolute), "example.test:8080");
    assert!(!is_ca_download(&absolute));
}

fn request_with_host(uri: &str) -> RequestData {
    let mut r = request("GET", uri, &[]);
    r.headers
        .insert("host".to_string(), vec!["proxy.crab".to_string()]);
    r
}

#[test]
fn ca_download_is_answered_with_the_certificate_type() {
    let response = ca_certificate_response();
    assert_eq!(response.status, 200);
    assert_eq!(response.version, "HTTP/1.1");
    assert_eq!(response.headers.len(), 1);
    assert_eq!(
        response.headers.get("content-type"),
        Some(&vec!["application/x-x509-ca-cert".to_string()])
    );
}
