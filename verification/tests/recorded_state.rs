use std::cell::Cell;

use proxy_crab_mitm::asset::{upload_metadata, upload_write, UploadState};
use proxy_crab_mitm::capture_flow::{
    local_answer, plan_request, skip_response, temporary_run, RequestRoute,
};
use proxy_crab_mitm::codec::{
    base64_encode, charge_scalar, decoded_unsigned, enter_table, merge_member, table_key, JsonEncodeBudget,
    JsonWarningCounts, JsonWarningState, LuaKey, LuaScalar, TableKey,
};
use proxy_crab_mitm::interceptor::ModificationJournal;
use proxy_crab_mitm::log_buffer::LogBuffer;
use proxy_crab_mitm::model::{
    script_content_hash, ErrorStage, HeaderValues, InterceptorExecutionOrigin, InterceptorKind, Modification,
    RequestData, RequestTags, SessionMetadata,
};
use proxy_crab_mitm::replay::{check_replay_target, ReplayError, ReplayRequest};
use proxy_crab_mitm::scripting::{execute_response, CaptureBodyAccess, EngineRun};
use proxy_crab_mitm::sessions::{resolve_tag_session, session_for_tag, update_session, TagSession};
use proxy_crab_mitm::storage::BodySide;

fn tag(key: &str, value: &str) -> Modification {
    Modification::TagSet { key: key.to_string(), value: value.to_string() }
}

#[test]
fn journal_lists_pushes_after_the_snapshot_it_started_from() {
    let start = Modification::UriSet { uri: "start".to_string() };
    let mut journal = ModificationJournal::new(start.clone());
    journal.push(tag("a", "1"));
    assert_eq!(journal.snapshot(), &vec![tag("a", "1")]);
    let method = Modification::MethodSet { method: "POST".to_string() };
    journal.push(method.clone());
    journal.push(tag("b", "2"));
    let status = Modification::StatusSet { status: 201 };
    journal.push(status.clone());
    assert_eq!(
        journal.into_modifications(),
        vec![start, tag("a", "1"), method, tag("b", "2"), status]
    );
}

#[test]
fn log_entries_are_numbered_across_clears() {
    let mut buffer = LogBuffer::new(2);
    assert_eq!(buffer.push("info".to_string(), "one".to_string()).seq, 1);
    assert_eq!(buffer.push("info".to_string(), "two".to_string()).seq, 2);
    buffer.clear();
    assert_eq!(buffer.push("warn".to_string(), "three".to_string()).seq, 3);
    assert_eq!(buffer.push("warn".to_string(), "four".to_string()).seq, 4);
    assert_eq!(buffer.push("warn".to_string(), "five".to_string()).seq, 5);
    let kept: Vec<u64> = buffer.query(None, 10).iter().map(|e| e.seq).collect();
    assert_eq!(kept, vec![4, 5]);
}

#[test]
fn padded_base64_is_four_characters_per_started_group() {
    for n in 0..10usize {
        let text = base64_encode(&vec![7u8; n]).unwrap();
        assert_eq!(text.len(), 4 * ((n + 2) / 3));
    }
}

#[test]
fn each_body_side_is_loaded_at_most_once() {
    let calls = Cell::new(0u32);
    let mut access = CaptureBodyAccess::new();
    for _ in 0..3 {
        let body = access.text_bytes(BodySide::Request, |_| {
            calls.set(calls.get() + 1);
            Ok(Some(b"req".to_vec()))
        });
        assert_eq!(body, Ok(Some(b"req".to_vec())));
    }
    let body = access.text_bytes(BodySide::Response, |_| {
        calls.set(calls.get() + 1);
        Ok(None)
    });
    assert_eq!(body, Ok(None));
    assert_eq!(calls.get(), 2);
}

fn session(id: u64, tags: &[&str]) -> SessionMetadata {
    SessionMetadata {
        id,
        name: format!("Session-{id}"),
        created_at: 0,
        description: None,
        tags: tags.iter().map(|t| t.to_string()).collect(),
    }
}

#[test]
fn resolving_a_tag_again_finds_the_session_it_created() {
    let mut sessions = vec![session(1, &["default"])];
    let created = resolve_tag_session(&sessions, "beta", "route").unwrap();
    let tags = match created {
        TagSession::Create { tags, .. } => tags,
        other => panic!("expected a new session, got {other:?}"),
    };
    let mut fresh = session(2, &[]);
    fresh.tags = tags;
    sessions.push(fresh);
    assert_eq!(resolve_tag_session(&sessions, "beta", "other").unwrap(), TagSession::Existing(1));
}

#[test]
fn moved_tags_select_the_updated_session() {
    let mut sessions = vec![session(1, &["default"]), session(2, &[])];
    let tags = vec!["zeta".to_string(), "default".to_string(), "zeta".to_string()];
    let updated = update_session(&mut sessions, 2, None, None, Some(tags)).unwrap();
    assert_eq!(updated.tags, vec!["default".to_string(), "zeta".to_string()]);
    assert!(sessions[0].tags.is_empty());
    assert_eq!(session_for_tag(&sessions, "default"), Some(1));
    assert_eq!(session_for_tag(&sessions, "zeta"), Some(1));
}

#[test]
fn uploads_are_sized_and_hashed_over_every_chunk() {
    let mut state = UploadState::new();
    upload_write(&mut state, b"a");
    upload_write(&mut state, b"bc");
    assert_eq!(state.received(), 3);
    let metadata = upload_metadata(state, "fixtures/abc".to_string(), "text/plain".to_string(), 9);
    assert_eq!(metadata.id, "fixtures/abc");
    assert_eq!(metadata.size, 3);
    assert_eq!(metadata.content_type, "text/plain");
    assert_eq!(metadata.created_at, 9);
    assert_eq!(metadata.sha256, "ba7816bf8f01cfea414140de5dae2223b00361a396177a9cb410ff61f20015ad");

    let empty = upload_metadata(UploadState::new(), "e".to_string(), "x/y".to_string(), 0);
    assert_eq!(empty.size, 0);
    assert_eq!(empty.sha256, "e3b0c44298fc1c149afbf4c8996fb92427ae41e4649b934ca495991b7852b855");
}

#[test]
fn temporary_runs_are_recorded_under_the_temporary_name() {
    let changes = vec![tag("k", "v")];
    let (run, note) = temporary_run(InterceptorKind::Response, 2, "return 1", changes.clone(), None);
    assert_eq!(run.origin, InterceptorExecutionOrigin::Temporary);
    assert!(run.completed);
    assert_eq!(run.phase, InterceptorKind::Response);
    assert_eq!(run.position, 2);
    assert_eq!(run.name, "临时脚本");
    assert_eq!(run.script_hash, script_content_hash("return 1"));
    assert_eq!(run.content, "return 1");
    assert_eq!(run.modifications, changes);
    assert_eq!(run.error, None);
    assert!(note.is_none());

    let (run, note) = temporary_run(InterceptorKind::Request, 0, "error('boom')", vec![], Some("boom".to_string()));
    assert_eq!(run.error, Some("boom".to_string()));
    let note = note.unwrap();
    assert_eq!(note.stage, ErrorStage::Interceptor);
    assert_eq!(note.kind, "interceptor_runtime_error");
    assert_eq!(note.message, "临时脚本: boom");
}

#[test]
fn replay_builder_refuses_unrepresentable_method_or_url() {
    let mut request = ReplayRequest {
        method: "GET".to_string(),
        url: "https://example.test/".to_string(),
        headers: vec![],
        body: None,
    };
    assert!(check_replay_target(&request).is_ok());
    request.method = "BAD METHOD".to_string();
    assert_eq!(
        check_replay_target(&request).unwrap_err(),
        ReplayError::Invalid("request builder rejected inputs".to_string())
    );
    request.method = "GET".to_string();
    request.url = "http://[".to_string();
    assert_eq!(
        check_replay_target(&request).unwrap_err(),
        ReplayError::Invalid("request builder rejected inputs".to_string())
    );
}

#[test]
fn skipped_requests_answer_locally_and_response_interceptors_see_that_answer() {
    let mut tags = RequestTags::new();
    tags.insert("_crab_skip".to_string(), "1".to_string());
    let request = RequestData {
        method: "GET".to_string(),
        uri: "http://example.test/".to_string(),
        version: "HTTP/1.1".to_string(),
        headers: HeaderValues::new(),
        tags,
    };
    let plan = plan_request(&request, false, false);
    assert_eq!(plan.route, RequestRoute::Skip);
    assert!(!plan.forward_original);
    let (answer, body) = skip_response();
    assert_eq!(answer.status, 200);
    assert_eq!(answer.version, "HTTP/1.1");
    assert!(answer.headers.is_empty());
    assert!(body.is_empty());
    let local = local_answer(plan.route).unwrap();
    assert_eq!(local.status, 200);
    assert!(local.headers.is_empty());
    assert!(local_answer(RequestRoute::Forward).is_none());

    let effects = execute_response("", &local, |call, state, journal| {
        let seen = call.response.as_ref().unwrap();
        assert_eq!(seen.status, 200);
        assert!(seen.headers.is_empty());
        Ok(EngineRun { state, journal, error: None })
    })
    .unwrap();
    assert_eq!(effects.status, Some(200));
    assert!(effects.headers.is_empty());
    assert!(effects.body.is_none());
    assert!(effects.modifications.is_empty());
}

#[test]
fn decoding_counts_duplicate_keys_and_lossy_numbers() {
    let mut warnings = JsonWarningState::new();
    let mut members: Vec<(String, i32)> = Vec::new();
    merge_member(&mut members, "a".to_string(), 1, &mut warnings);
    merge_member(&mut members, "b".to_string(), 2, &mut warnings);
    merge_member(&mut members, "a".to_string(), 3, &mut warnings);
    assert_eq!(members, vec![("a".to_string(), 3), ("b".to_string(), 2)]);
    assert_eq!(warnings.counts.duplicate_keys, 1);
    assert_eq!(decoded_unsigned(5, &mut warnings), Some(5));
    assert_eq!(decoded_unsigned(i64::MAX as u64, &mut warnings), Some(i64::MAX));
    assert_eq!(warnings.counts.lossy_numbers, 0);
    assert_eq!(decoded_unsigned(u64::MAX, &mut warnings), None);
    assert_eq!(warnings.counts.lossy_numbers, 1);

    let mut total = JsonWarningState::new();
    assert!(total.absorb(JsonWarningCounts { lossy_numbers: 2, duplicate_keys: 1 }));
    assert!(!total.absorb(JsonWarningCounts { lossy_numbers: usize::MAX, duplicate_keys: 0 }));
    assert_eq!(total.counts, JsonWarningCounts { lossy_numbers: 2, duplicate_keys: 1 });
}

#[test]
fn encoder_keys_scalars_and_tables() {
    let mut budget = JsonEncodeBudget::default();
    assert_eq!(table_key(LuaKey::Integer(3), &mut budget), Ok(TableKey::Index(3)));
    assert_eq!(budget.estimated_output_bytes, 0);
    assert_eq!(table_key(LuaKey::Text(Some("ab".to_string())), &mut budget), Ok(TableKey::Name("ab".to_string())));
    assert_eq!(budget.estimated_output_bytes, 5);
    for key in [LuaKey::Integer(0), LuaKey::Integer(-1), LuaKey::Other] {
        assert_eq!(
            table_key(key, &mut budget),
            Err("JSON table keys must be positive integers or strings".to_string())
        );
    }
    assert_eq!(
        table_key(LuaKey::Text(None), &mut budget),
        Err("JSON object keys must be valid UTF-8".to_string())
    );
    assert_eq!(budget.estimated_output_bytes, 5);

    charge_scalar(&LuaScalar::Nil, &mut budget).unwrap();
    charge_scalar(&LuaScalar::Integer, &mut budget).unwrap();
    charge_scalar(&LuaScalar::Text(Some(3)), &mut budget).unwrap();
    assert_eq!(budget.estimated_output_bytes, 5 + 4 + 1 + 5);
    assert_eq!(
        charge_scalar(&LuaScalar::Number { finite: false }, &mut budget),
        Err("JSON cannot encode NaN or infinite numbers".to_string())
    );
    assert_eq!(
        charge_scalar(&LuaScalar::Other("function".to_string()), &mut budget),
        Err("JSON cannot encode Lua function values".to_string())
    );
    assert_eq!(budget.estimated_output_bytes, 15);

    let mut active = Vec::new();
    assert_eq!(enter_table(&mut active, 7, 0), Ok(()));
    assert_eq!(enter_table(&mut active, 7, 1), Err("JSON cannot encode cyclic tables".to_string()));
    assert_eq!(
        enter_table(&mut active, 8, 128),
        Err("JSON value exceeds the maximum nesting depth of 128".to_string())
    );
    assert_eq!(active, vec![7]);
}

#[test]
fn table_entries_are_encoded_in_key_order() {
    let positions = proxy_crab_mitm::codec::sort_by_position(vec![(3usize, 'c'), (1, 'a'), (2, 'b')]);
    assert_eq!(positions, vec![(1, 'a'), (2, 'b'), (3, 'c')]);
    let names = proxy_crab_mitm::codec::sort_by_name(vec![
        ("zeta".to_string(), 1),
        ("Alpha".to_string(), 2),
        ("alpha".to_string(), 3),
        ("é".to_string(), 4),
    ]);
    let order: Vec<&str> = names.iter().map(|(name, _)| name.as_str()).collect();
    assert_eq!(order, vec!["Alpha", "alpha", "zeta", "é"]);
}
