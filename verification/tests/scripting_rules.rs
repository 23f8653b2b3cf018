use proxy_crab_mitm::codec::JsonWarningCounts;
use proxy_crab_mitm::interceptor::BodyReplacement;
use proxy_crab_mitm::model::{
    CaptureOutcome, CaptureSummary, HeaderValues, Modification, RequestData, RequestTags,
    ResponseData, ScriptKind,
};
use proxy_crab_mitm::scripting::{
    bodies_for_entry, bounded_text, chunk_name, column_result, decoders_for, evaluate_column,
    evaluate_filter, execute_request, execute_request_lenient, execute_response, filter_result,
    plan_text_read, routing_result, validate_script, CaptureBodyAccess, EngineRun,
    json_warning_line, InstructionCounter, ScriptError, ScriptValue, TextSource, INSTRUCTION_CHECK_INTERVAL, INSTRUCTION_LIMIT,
};
use proxy_crab_mitm::storage::{BodySide, Coding};

fn request() -> RequestData {
    let mut headers = HeaderValues::new();
    headers.insert("content-type".to_string(), vec!["application/json".to_string()]);
    let mut tags = RequestTags::new();
    tags.insert("team".to_string(), "one".to_string());
    RequestData {
        method: "GET".to_string(),
        uri: "http://example.test/a".to_string(),
        version: "HTTP/1.1".to_string(),
        headers,
        tags,
    }
}

fn entry(outcome: CaptureOutcome) -> CaptureSummary {
    CaptureSummary {
        id: 1,
        session_id: 1,
        source: "127.0.0.1:1234".to_string(),
        request: request(),
        response: None,
        outcome,
        stage: "complete".to_string(),
        error: None,
        created_at: 0,
        updated_at: 0,
    }
}

#[test]
fn evaluates_filter_and_column() {
    let e = entry(CaptureOutcome::Success);
    let matched = evaluate_filter("return method == input", "GET", &e, |call| {
        let arg = call.argument.clone().unwrap();
        Ok(ScriptValue::Boolean(call.entry.request.method == arg))
    });
    assert_eq!(matched, Ok(true));
    let column = evaluate_column("return method", &e, |call| {
        Ok(ScriptValue::Text(call.entry.request.method.clone()))
    });
    assert_eq!(column.unwrap(), "GET");
}

#[test]
fn filter_requires_boolean_and_propagates_runtime_failures() {
    let e = entry(CaptureOutcome::Success);
    assert_eq!(
        evaluate_filter("return 1", "", &e, |_| Ok(ScriptValue::Integer(1))).unwrap_err(),
        "filter script must return a boolean"
    );
    assert_eq!(
        evaluate_filter("error('boom')", "", &e, |_| Err("boom".to_string())).unwrap_err(),
        "boom"
    );
}

#[test]
fn script_values_convert_by_kind() {
    assert_eq!(filter_result(ScriptValue::Boolean(false)), Ok(false));
    assert!(filter_result(ScriptValue::Nil).is_err());
    assert_eq!(column_result(ScriptValue::Nil).unwrap(), "");
    assert_eq!(column_result(ScriptValue::Boolean(true)).unwrap(), "true");
    assert_eq!(column_result(ScriptValue::Integer(-42)).unwrap(), "-42");
    assert_eq!(column_result(ScriptValue::Number("1.5".to_string())).unwrap(), "1.5");
    assert!(column_result(ScriptValue::Other).is_err());
    assert_eq!(routing_result(ScriptValue::Nil), Ok(None));
    assert_eq!(routing_result(ScriptValue::Boolean(true)), Ok(Some(true)));
    assert_eq!(
        routing_result(ScriptValue::Integer(1)).unwrap_err(),
        "routing script must return a boolean or nil"
    );
}

#[test]
fn validates_syntax_and_stops_runaway_script() {
    assert!(validate_script(ScriptKind::Column, "return (").is_err());
    assert!(validate_script(ScriptKind::Filter, "return (").is_err());
    assert!(validate_script(ScriptKind::Filter, "return true").is_ok());
    match validate_script(ScriptKind::Routing, "return (") {
        Err(ScriptError::InvalidScript(message)) => assert!(message.contains("routing.lua:1")),
        Ok(()) => panic!("expected a syntax error"),
    }
    assert_eq!(chunk_name(ScriptKind::RequestInterceptor), "@request-interceptor.lua");

    let mut counter = InstructionCounter::new();
    let mut stopped = None;
    for _ in 0..200 {
        if let Err(e) = counter.check() {
            stopped = Some(e);
            break;
        }
    }
    assert_eq!(stopped.as_deref(), Some("Lua instruction limit exceeded"));
    assert!(counter.executed > INSTRUCTION_LIMIT);
    counter.reset();
    assert_eq!(counter.executed, 0);
    assert_eq!(counter.add(INSTRUCTION_CHECK_INTERVAL), INSTRUCTION_CHECK_INTERVAL);
}

#[test]
fn request_script_mutates_method_uri_headers_and_body() {
    let r = request();
    let effects = execute_request("req.method = 'POST'", &r, |call, mut state, mut journal| {
        assert_eq!(call.kind, ScriptKind::RequestInterceptor);
        state.set_method(&mut journal, "POST".to_string())?;
        state.set_uri(&mut journal, "http://example.test/b".to_string())?;
        state.header_set(&mut journal, "x-added".to_string(), "1".to_string())?;
        state.replace_body_with_string(&mut journal, "{}".to_string());
        Ok(EngineRun {
            state,
            journal,
            error: None,
        })
    })
    .unwrap();
    assert_eq!(effects.method.as_deref(), Some("POST"));
    assert_eq!(effects.uri.as_deref(), Some("http://example.test/b"));
    assert!(effects.headers.get("x-added").is_some());
    assert!(matches!(effects.body, Some(BodyReplacement::String(ref s)) if s == "{}"));
    assert!(matches!(effects.modifications[0], Modification::Snapshot { .. }));
    assert!(effects.modifications.len() >= 4);
}

#[test]
fn request_script_errors_keep_partial_effects_when_lenient() {
    let r = request();
    let (effects, error) = execute_request_lenient("x", &r, |_, mut state, mut journal| {
        state.set_tag(&mut journal, "before-error".to_string(), "kept".to_string());
        Ok(EngineRun {
            state,
            journal,
            error: Some("boom".to_string()),
        })
    })
    .unwrap();
    assert_eq!(error.as_deref(), Some("boom"));
    assert_eq!(effects.tags.get("before-error").map(|s| s.as_str()), Some("kept"));
    let strict = execute_request("x", &r, |_, state, journal| {
        Ok(EngineRun {
            state,
            journal,
            error: Some("boom".to_string()),
        })
    });
    assert_eq!(strict.unwrap_err(), "boom");
}

#[test]
fn response_script_mutates_status_and_reads_request_context() {
    let response = ResponseData {
        status: 200,
        version: "HTTP/1.1".to_string(),
        headers: HeaderValues::new(),
    };
    let effects = execute_response("resp.status = 404", &response, |call, mut state, mut journal| {
        assert_eq!(call.kind, ScriptKind::ResponseInterceptor);
        state.set_status(&mut journal, 404)?;
        Ok(EngineRun {
            state,
            journal,
            error: None,
        })
    })
    .unwrap();
    assert_eq!(effects.status, Some(404));
}

#[test]
fn historical_body_access_is_read_only_lazy_and_cached() {
    let mut access = CaptureBodyAccess::new();
    let first = access.text_bytes(BodySide::Request, |_| Ok(Some(b"one".to_vec())));
    assert_eq!(first, Ok(Some(b"one".to_vec())));
    let second = access.text_bytes(BodySide::Request, |_| Ok(Some(b"two".to_vec())));
    assert_eq!(second, Ok(Some(b"one".to_vec())));
    let other = access.text_bytes(BodySide::Response, |_| Err("missing".to_string()));
    assert_eq!(other, Err("missing".to_string()));

    let in_progress = bodies_for_entry(&entry(CaptureOutcome::InProgress), CaptureBodyAccess::new());
    assert!(!in_progress.is_readable());
    let mut none = CaptureBodyAccess::unavailable();
    assert_eq!(none.text_bytes(BodySide::Request, |_| Ok(Some(vec![1]))), Ok(None));
}

#[test]
fn historical_body_access_follows_content_encoding_and_size_rules() {
    let mut headers = HeaderValues::new();
    headers.insert("content-type".to_string(), vec!["text/plain".to_string()]);
    headers.insert("content-encoding".to_string(), vec!["gzip, br".to_string()]);
    let state = proxy_crab_mitm::interceptor::InterceptorState::new_request(
        "GET".to_string(),
        "/".to_string(),
        headers,
        RequestTags::new(),
    );
    let plan = plan_text_read(&state).unwrap();
    assert!(matches!(plan.source, TextSource::Raw { frame_timeout_ms: None }));
    assert_eq!(plan.encodings, vec!["gzip", "br"]);
    assert_eq!(
        decoders_for(&plan.encodings),
        Some(vec![Coding::Brotli, Coding::Gzip])
    );
    assert_eq!(decoders_for(&vec!["compress".to_string()]), None);
    assert_eq!(bounded_text(None), Ok(None));
    assert_eq!(bounded_text(Some(vec![1, 2])), Ok(Some(vec![1, 2])));
    assert!(bounded_text(Some(vec![0; 16 * 1024 * 1024 + 1])).is_err());

    let binary = proxy_crab_mitm::interceptor::InterceptorState::new_request(
        "GET".to_string(),
        "/".to_string(),
        HeaderValues::new(),
        RequestTags::new(),
    );
    assert!(matches!(plan_text_read(&binary).unwrap().source, TextSource::NotText));
}

#[test]
fn json_warnings_are_logged_only_when_something_was_lost() {
    let none = JsonWarningCounts {
        lossy_numbers: 0,
        duplicate_keys: 0,
    };
    assert_eq!(json_warning_line(ScriptKind::Filter, "\"f\"", None, none), None);
    let some = JsonWarningCounts {
        lossy_numbers: 2,
        duplicate_keys: 1,
    };
    assert_eq!(
        json_warning_line(ScriptKind::RequestInterceptor, "\"rewrite\"", Some(7), some).unwrap(),
        "Lua JSON decode warning in request interceptor \"rewrite\": capture_log_id=7, lossy_numbers=2, duplicate_keys=1"
    );
    assert_eq!(
        json_warning_line(ScriptKind::Column, "\"c\"", None, some).unwrap(),
        "Lua JSON decode warning in column script \"c\": lossy_numbers=2, duplicate_keys=1"
    );
}
