use proxy_crab_mitm::model::{
    FilterColumn, FilterOption, InterceptorKind, ScriptKind, SessionFilter, SessionInterceptor,
    SessionInterceptors, SessionMetadata, MAX_SESSION_INTERCEPTORS_PER_KIND,
};
use proxy_crab_mitm::sessions::{
    default_session_name, filter_script_requirement, initial_session_tags, interceptor_library, next_session_id,
    new_session_record, remove_chain_entries, remove_session, repaired_filter, replace_filter_reference, resolve_chain, resolve_tag_session, TagSession, session_for_tag, sort_tags, update_session,
    validate_script_name, validate_session_interceptors, validate_tag,
};

fn session(id: u64, name: &str, tags: &[&str]) -> SessionMetadata {
    SessionMetadata {
        id,
        name: name.to_string(),
        created_at: id,
        description: None,
        tags: tags.iter().map(|t| t.to_string()).collect(),
    }
}

fn entry(name: &str, enabled: bool) -> SessionInterceptor {
    SessionInterceptor {
        name: name.to_string(),
        enabled,
    }
}

#[test]
fn session_interceptor_chains_enforce_limit_and_uniqueness() {
    let duplicate = SessionInterceptors {
        request: vec![entry("a", true), entry("a", false)],
        response: vec![],
    };
    assert!(validate_session_interceptors(&duplicate).is_err());

    let too_many = SessionInterceptors {
        request: (0..=MAX_SESSION_INTERCEPTORS_PER_KIND)
            .map(|index| entry(&format!("script-{index}"), true))
            .collect(),
        response: vec![],
    };
    assert!(validate_session_interceptors(&too_many).is_err());
}

#[test]
fn chain_errors_name_the_phase() {
    let duplicate = SessionInterceptors {
        request: vec![entry("a", true)],
        response: vec![entry("b", true), entry("b", true)],
    };
    assert_eq!(
        validate_session_interceptors(&duplicate).unwrap_err(),
        "response interceptor chain contains duplicate scripts"
    );
    let too_many = SessionInterceptors {
        request: (0..13).map(|i| entry(&format!("s{i}"), true)).collect(),
        response: vec![],
    };
    assert_eq!(
        validate_session_interceptors(&too_many).unwrap_err(),
        "request interceptor chain cannot contain more than 12 entries"
    );
    let fine = SessionInterceptors {
        request: (0..12).map(|i| entry(&format!("s{i}"), true)).collect(),
        response: vec![entry("s0", true)],
    };
    assert!(validate_session_interceptors(&fine).is_ok());
}

#[test]
fn tag_updates_move_tags_between_sessions_and_store_them_sorted() {
    let mut sessions = vec![session(1, "first", &["default"]), session(2, "second", &[])];
    let updated = update_session(
        &mut sessions,
        2,
        None,
        None,
        Some(vec!["zeta".to_string(), "default".to_string(), "zeta".to_string()]),
    )
    .unwrap();
    assert_eq!(updated.tags, vec!["default", "zeta"]);
    assert!(sessions.iter().find(|s| s.id == 1).unwrap().tags.is_empty());
    let index = session_for_tag(&sessions, "default").unwrap();
    assert_eq!(sessions[index].id, 2);
}

#[test]
fn session_updates_reject_unknown_ids_and_invalid_tags() {
    let mut sessions = vec![session(1, "first", &["default"])];
    assert_eq!(
        update_session(&mut sessions, 9, None, None, None).unwrap_err(),
        "session 9 not found"
    );
    assert!(update_session(&mut sessions, 1, None, None, Some(vec!["Bad Tag".to_string()])).is_err());
    assert_eq!(sessions[0].tags, vec!["default"]);
    let renamed = update_session(
        &mut sessions,
        1,
        Some("renamed".to_string()),
        Some(Some("about".to_string())),
        None,
    )
    .unwrap();
    assert_eq!(renamed.name, "renamed");
    assert_eq!(renamed.description.as_deref(), Some("about"));
    assert_eq!(sessions[0].name, "renamed");
}

#[test]
fn first_manual_session_receives_default_tag_and_can_be_deleted() {
    let mut sessions: Vec<SessionMetadata> = Vec::new();
    let session = new_session_record(
        &sessions,
        1_000,
        1_000,
        Some("capture".to_string()),
        None,
        initial_session_tags(sessions.len()),
    );
    sessions.push(session.clone());
    assert_eq!(session.tags, vec!["default"]);
    assert_eq!(remove_session(&mut sessions, session.id).unwrap().id, session.id);
    assert!(sessions.is_empty());
    assert_eq!(
        remove_session(&mut sessions, session.id).unwrap_err(),
        "session 1000 not found"
    );
}

#[test]
fn later_sessions_get_no_tags_and_default_names() {
    let sessions = vec![session(5, "first", &["default"])];
    assert!(initial_session_tags(sessions.len()).is_empty());
    let second = new_session_record(&sessions, 5, 9, None, None, Vec::new());
    assert_eq!(second.id, 6);
    assert_eq!(second.name, "Session-6");
    assert_eq!(second.created_at, 9);
    assert_eq!(default_session_name(17), "Session-17");
}

#[test]
fn explicit_unbound_tag_creates_exactly_one_session() {
    let mut sessions: Vec<SessionMetadata> = Vec::new();
    let created = match resolve_tag_session(&sessions, "mobile_2", "route").unwrap() {
        TagSession::Create {
            name,
            description,
            tags,
        } => new_session_record(&sessions, 40, 40, Some(name), Some(description), tags),
        TagSession::Existing(_) => panic!("no session carries the tag yet"),
    };
    sessions.push(created.clone());
    let resolved = match resolve_tag_session(&sessions, "mobile_2", "route").unwrap() {
        TagSession::Existing(index) => sessions[index].clone(),
        TagSession::Create { .. } => panic!("the tag is bound now"),
    };
    assert_eq!(created.id, resolved.id);
    assert_eq!(created.name, "mobile_2");
    assert_eq!(created.tags, vec!["mobile_2"]);
    assert_eq!(
        created.description.as_deref(),
        Some("由分流脚本「route」自动创建")
    );
    assert_eq!(sessions.len(), 1);
    assert!(resolve_tag_session(&sessions, "Mobile", "route").is_err());
}

#[test]
fn new_session_has_empty_interceptor_chains() {
    let chains = SessionInterceptors::default();
    assert!(chains.request.is_empty());
    assert!(chains.response.is_empty());
    assert!(validate_session_interceptors(&chains).is_ok());
}

#[test]
fn new_session_ids_skip_taken_ones() {
    let sessions = vec![session(100, "a", &[]), session(101, "b", &[])];
    assert_eq!(next_session_id(&sessions, 100), 102);
    assert_eq!(next_session_id(&sessions, 50), 50);
}

#[test]
fn tags_and_script_names_are_validated() {
    assert!(validate_tag("team_1").is_ok());
    assert!(validate_tag("").is_err());
    assert!(validate_tag("UPPER").is_err());
    assert!(validate_tag("abcdefghijklmnopqrstu").is_err());
    assert!(validate_script_name("rewrite-body_v2.1").is_ok());
    assert!(validate_script_name("rewrite body").is_err());
    assert!(validate_script_name("改写_1").is_ok());
    assert!(validate_script_name("a+b").is_err());
    assert!(validate_script_name("..").is_err());
    assert!(validate_script_name("a/b").is_err());
    assert!(validate_script_name("").is_err());
    assert_eq!(
        sort_tags(&vec!["b".to_string(), "a".to_string(), "b".to_string()]),
        vec!["a", "b"]
    );
}

#[test]
fn interceptor_delete_updates_every_session() {
    let chain = vec![entry("keep", true), entry("drop", false), entry("drop", true)];
    let kept = remove_chain_entries(&chain, "drop");
    assert_eq!(kept.len(), 1);
    assert_eq!(kept[0].name, "keep");
}

#[test]
fn column_script_delete_removes_view_references() {
    let mut filter = SessionFilter {
        option: Some(FilterOption::Script {
            script_name: "only-errors".to_string(),
        }),
        input: "x".to_string(),
    };
    replace_filter_reference(&mut filter, ScriptKind::Column, "only-errors");
    assert!(filter.option.is_some());
    replace_filter_reference(&mut filter, ScriptKind::Filter, "only-errors");
    assert!(filter.option.is_none());
    assert!(filter.input.is_empty());
    let mut column = SessionFilter {
        option: Some(FilterOption::Column {
            column: FilterColumn::Script {
                script_name: "host".to_string(),
            },
            regex: false,
        }),
        input: "y".to_string(),
    };
    replace_filter_reference(&mut column, ScriptKind::Column, "host");
    assert!(column.option.is_none());
}

#[test]
fn library_counts_uses_across_sessions() {
    let chains = vec![
        SessionInterceptors {
            request: vec![entry("a", true), entry("b", true)],
            response: vec![entry("a", true)],
        },
        SessionInterceptors {
            request: vec![entry("a", false)],
            response: vec![],
        },
    ];
    let names = vec!["a".to_string(), "c".to_string()];
    let items = interceptor_library(&names, &chains, InterceptorKind::Request);
    assert_eq!(items.len(), 2);
    assert_eq!(items[0].usage_count, 2);
    assert_eq!(items[1].usage_count, 0);
    let items = interceptor_library(&names, &chains, InterceptorKind::Response);
    assert_eq!(items[0].usage_count, 1);
}

#[test]
fn session_filters_name_the_script_they_need() {
    let none = SessionFilter {
        option: None,
        input: String::new(),
    };
    assert_eq!(filter_script_requirement(&none), None);
    let builtin = SessionFilter {
        option: Some(FilterOption::Column {
            column: FilterColumn::Method,
            regex: true,
        }),
        input: "GET".to_string(),
    };
    assert_eq!(filter_script_requirement(&builtin), None);
    let column = SessionFilter {
        option: Some(FilterOption::Column {
            column: FilterColumn::Script {
                script_name: "host".to_string(),
            },
            regex: false,
        }),
        input: String::new(),
    };
    assert_eq!(
        filter_script_requirement(&column),
        Some((ScriptKind::Column, "host".to_string()))
    );
    let script = SessionFilter {
        option: Some(FilterOption::Script {
            script_name: "errors".to_string(),
        }),
        input: String::new(),
    };
    assert_eq!(
        filter_script_requirement(&script),
        Some((ScriptKind::Filter, "errors".to_string()))
    );
}

#[test]
fn chains_are_resolved_against_existing_scripts() {
    let chain = vec![entry("present", true), entry("missing", false)];
    let resolved = resolve_chain(&chain, &vec!["present".to_string(), "other".to_string()]);
    assert_eq!(resolved.len(), 2);
    assert_eq!(resolved[0].name, "present");
    assert!(resolved[0].valid && resolved[0].enabled);
    assert_eq!(resolved[1].name, "missing");
    assert!(!resolved[1].valid && !resolved[1].enabled);
}

#[test]
fn filter_script_delete_and_external_removal_repair_sessions() {
    let mut filter = SessionFilter {
        option: Some(FilterOption::Script {
            script_name: "old".to_string(),
        }),
        input: "input".to_string(),
    };
    replace_filter_reference(&mut filter, ScriptKind::Filter, "old");
    assert_eq!(filter, SessionFilter::default());

    let external = SessionFilter {
        option: Some(FilterOption::Script {
            script_name: "external".to_string(),
        }),
        input: "input".to_string(),
    };
    assert_eq!(
        filter_script_requirement(&external),
        Some((ScriptKind::Filter, "external".to_string()))
    );
    assert_eq!(repaired_filter(external.clone(), true), external);
    assert_eq!(repaired_filter(external, false), SessionFilter::default());
    let builtin = SessionFilter {
        option: Some(FilterOption::Column {
            column: FilterColumn::Uri,
            regex: false,
        }),
        input: "x".to_string(),
    };
    assert_eq!(repaired_filter(builtin.clone(), false), builtin);
}
