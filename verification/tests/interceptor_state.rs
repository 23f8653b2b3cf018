use proxy_crab_mitm::headers::remove_header_value;
use proxy_crab_mitm::interceptor::{BodyReplacement, InterceptorState, ModificationJournal};
use proxy_crab_mitm::model::{
    BodySourceType, HeaderValues, Modification, RequestData, RequestTags, ResponseData,
};

fn request() -> RequestData {
    let mut headers = HeaderValues::new();
    headers.insert("x-test".to_string(), vec!["old".to_string()]);
    headers.insert("Content-Encoding".to_string(), vec!["gzip".to_string()]);
    RequestData {
        method: "GET".to_string(),
        uri: "https://example.com/path?q=1".to_string(),
        version: "HTTP/1.1".to_string(),
        headers,
        tags: RequestTags::new(),
    }
}

#[test]
fn replacement_removes_content_encoding_case_insensitively() {
    let mut headers = HeaderValues::new();
    headers.insert("Content-Encoding".to_string(), vec!["gzip".to_string()]);
    remove_header_value(&mut headers, "content-encoding");
    assert!(headers.is_empty());
}

#[test]
fn request_method_and_uri_reject_values_the_http_stack_cannot_represent() {
    let data = request();
    let mut state = InterceptorState::new_request(
        data.method.clone(),
        data.uri.clone(),
        data.headers.duplicate(),
        data.tags.duplicate(),
    );
    let mut journal = ModificationJournal::for_request(&data, None);
    assert!(state.set_method(&mut journal, "BAD METHOD".to_string()).is_err());
    assert!(state.set_uri(&mut journal, "http://[".to_string()).is_err());
    assert!(journal.snapshot().is_empty());
    assert!(state.set_method(&mut journal, "BREW".to_string()).is_ok());
    assert_eq!(state.method.as_deref(), Some("BREW"));
    assert!(matches!(journal.snapshot()[0], Modification::Snapshot { .. }));
    assert!(matches!(&journal.snapshot()[1], Modification::MethodSet { method } if method == "BREW"));
}

#[test]
fn response_status_accepts_http_type_range_and_rejects_unrepresentable_values() {
    let response = ResponseData {
        status: 200,
        version: "HTTP/1.1".to_string(),
        headers: HeaderValues::new(),
    };
    let mut state = InterceptorState::new_response(200, HeaderValues::new(), RequestTags::new());
    let mut journal = ModificationJournal::for_response(&response, None);
    assert!(state.set_status(&mut journal, 100).is_ok());
    assert!(state.set_status(&mut journal, 999).is_ok());
    assert_eq!(state.status, Some(999));
    assert!(state
        .set_status(&mut journal, 99)
        .unwrap_err()
        .contains("between 100 and 999"));
    assert!(state
        .set_status(&mut journal, 1000)
        .unwrap_err()
        .contains("between 100 and 999"));
    assert_eq!(state.status, Some(999));
}

#[test]
fn header_set_replaces_every_spelling_and_get_reads_it_back() {
    let data = request();
    let mut state = InterceptorState::new_request(
        data.method.clone(),
        data.uri.clone(),
        data.headers.duplicate(),
        data.tags.duplicate(),
    );
    let mut journal = ModificationJournal::for_request(&data, None);
    state
        .header_set(&mut journal, "X-Test".to_string(), "new".to_string())
        .unwrap();
    assert_eq!(state.header_get("x-test").as_deref(), Some("new"));
    assert_eq!(state.header_get_all("X-TEST"), vec!["new".to_string()]);
    state
        .header_append(&mut journal, "x-test".to_string(), "more".to_string())
        .unwrap();
    assert_eq!(
        state.header_get_all("x-test"),
        vec!["new".to_string(), "more".to_string()]
    );
    state.header_remove(&mut journal, "X-TEST".to_string());
    assert_eq!(state.header_get("x-test"), None);
    assert!(state
        .header_set(&mut journal, "bad name".to_string(), "v".to_string())
        .is_err());
}

#[test]
fn tag_changes_are_journaled_without_a_snapshot() {
    let data = request();
    let mut state = InterceptorState::new_request(
        data.method.clone(),
        data.uri.clone(),
        data.headers.duplicate(),
        data.tags.duplicate(),
    );
    let mut journal = ModificationJournal::for_request(&data, None);
    state.set_tag(&mut journal, "team".to_string(), "two".to_string());
    assert_eq!(state.get_tag("team").as_deref(), Some("two"));
    assert_eq!(journal.snapshot().len(), 1);
    assert!(matches!(&journal.snapshot()[0], Modification::TagSet { key, value } if key == "team" && value == "two"));
}

#[test]
fn body_replacement_drops_content_encoding_and_is_recorded() {
    let data = request();
    let mut state = InterceptorState::new_request(
        data.method.clone(),
        data.uri.clone(),
        data.headers.duplicate(),
        data.tags.duplicate(),
    );
    let mut journal = ModificationJournal::for_request(&data, None);
    state.replace_body_with_string(&mut journal, "body".to_string());
    assert_eq!(state.header_get("content-encoding"), None);
    let replacement = state.body.clone().unwrap();
    assert_eq!(
        replacement.source_type(),
        BodySourceType::String {
            content: "body".to_string()
        }
    );
    assert!(matches!(replacement, BodyReplacement::String(ref text) if text == "body"));
    let effects = state.into_effects(journal);
    assert_eq!(effects.method.as_deref(), Some("GET"));
    assert!(effects
        .modifications
        .iter()
        .any(|m| matches!(m, Modification::HeaderRemove { name, .. } if name == "content-encoding")));
}
