use std::path::PathBuf;

use proxy_crab_mitm::asset::{
    asset_availability, assets_directory, metadata_directory, metadata_file, uploads_directory,
    Asset, AssetError, AssetMetadata, AssetStore,
};
use proxy_crab_mitm::capture_flow::{
    apply_request_run, apply_response_run, replacement_changed, settle_run, RunApplied, ScriptRun,
};
use proxy_crab_mitm::headers::{
    content_encodings, eq_ignore_ascii_case, existing_header_name, first_header,
    first_header_tokens, header_tokens, is_textual, remove_header, response_status_has_body,
    value_list_tokens,
};
use proxy_crab_mitm::interceptor::{BodyReplacement, ScriptEffects};
use proxy_crab_mitm::migration::{
    final_body_step, imported_content_type, keeps_modification_kind, migration_asset_id,
    modified_body_file_name, FinalBodyStep,
};
use proxy_crab_mitm::model::{
    default_api_port, default_proxy_host, default_proxy_port, BodySourceType, HeaderValues,
    RequestData, RequestTags, ResponseData,
};
use proxy_crab_mitm::numbers::{i64_text, u64_text};
use proxy_crab_mitm::text::{split_char, str_contains, str_lt, str_starts_with, str_trim, to_ascii_lowercase};
use proxy_crab_mitm::wire::{connection_header_names, hop_by_hop_plan};

fn headers(pairs: &[(&str, &[&str])]) -> HeaderValues {
    let mut h = HeaderValues::new();
    for (name, values) in pairs {
        h.insert(name.to_string(), values.iter().map(|v| v.to_string()).collect());
    }
    h
}

fn effects(method: &str, body: Option<BodyReplacement>) -> ScriptEffects {
    let mut tags = RequestTags::new();
    tags.insert("seen".to_string(), "yes".to_string());
    ScriptEffects {
        method: Some(method.to_string()),
        uri: Some("http://example.test/next".to_string()),
        status: Some(201),
        headers: headers(&[("x-run", &["1"])]),
        body,
        tags,
        modifications: Vec::new(),
    }
}

fn asset(id: &str) -> Asset {
    Asset::new(
        AssetMetadata {
            id: id.to_string(),
            size: 3,
            content_type: "text/plain".to_string(),
            sha256: "00".to_string(),
            created_at: 1,
        },
        PathBuf::from(format!("/assets/{id}")),
    )
}

#[test]
fn request_runs_apply_their_effects() {
    let mut request = RequestData {
        method: "GET".to_string(),
        uri: "http://example.test/".to_string(),
        version: "HTTP/1.1".to_string(),
        headers: headers(&[("content-encoding", &["gzip"])]),
        tags: RequestTags::new(),
    };
    let run = ScriptRun::Finished {
        effects: effects("POST", Some(BodyReplacement::String("new".to_string()))),
        error: Some("late error".to_string()),
    };
    let applied = apply_request_run(&mut request, &None, run);
    assert_eq!(request.method, "POST");
    assert_eq!(request.uri, "http://example.test/next");
    assert_eq!(request.version, "HTTP/1.1");
    assert!(request.tags.get("seen").is_some());
    assert!(matches!(applied.prepare, Some(BodyReplacement::String(ref s)) if s == "new"));
    assert_eq!(applied.script_error.as_deref(), Some("late error"));

    let same = apply_request_run(
        &mut request,
        &Some(BodyReplacement::String("new".to_string())),
        ScriptRun::Finished {
            effects: effects("POST", Some(BodyReplacement::String("new".to_string()))),
            error: None,
        },
    );
    assert!(same.prepare.is_none());

    let before = request.clone();
    let failed = apply_request_run(&mut request, &None, ScriptRun::WorkerFailed("panicked".to_string()));
    assert_eq!(request, before);
    assert_eq!(failed.failure.as_deref(), Some("interceptor worker failed: panicked"));
}

#[test]
fn response_runs_apply_status_headers_and_tags() {
    let mut response = ResponseData {
        status: 200,
        version: "HTTP/2.0".to_string(),
        headers: HeaderValues::new(),
    };
    let mut tags = RequestTags::new();
    let applied = apply_response_run(
        &mut response,
        &mut tags,
        &None,
        ScriptRun::Finished {
            effects: effects("", None),
            error: None,
        },
    );
    assert_eq!(response.status, 201);
    assert_eq!(response.version, "HTTP/2.0");
    assert!(response.headers.get("x-run").is_some());
    assert!(tags.get("seen").is_some());
    assert!(applied.prepare.is_none());
    assert!(applied.failure.is_none());
}

#[test]
fn settled_runs_record_preparation_failures_before_script_errors() {
    let mut headers_now = headers(&[("Content-Encoding", &["br"]), ("x", &["1"])]);
    let mut body = None;
    let applied = RunApplied {
        prepare: Some(BodyReplacement::String("b".to_string())),
        script_error: None,
        failure: None,
    };
    let record = settle_run(applied, Some(Ok(())), &mut headers_now, &mut body);
    assert!(record.notes.is_empty());
    assert_eq!(record.run_error, None);
    assert!(matches!(body, Some(BodyReplacement::String(ref s)) if s == "b"));
    assert!(headers_now.get("Content-Encoding").is_none());
    assert!(headers_now.get("x").is_some());

    let applied = RunApplied {
        prepare: Some(BodyReplacement::String("c".to_string())),
        script_error: Some("script".to_string()),
        failure: None,
    };
    let record = settle_run(applied, Some(Err("missing asset".to_string())), &mut headers_now, &mut body);
    assert_eq!(record.notes, vec!["missing asset", "script"]);
    assert_eq!(record.run_error.as_deref(), Some("missing asset; script"));
    assert!(matches!(body, Some(BodyReplacement::String(ref s)) if s == "b"));

    let failed = RunApplied {
        prepare: None,
        script_error: None,
        failure: Some("boom".to_string()),
    };
    let record = settle_run(failed, None, &mut headers_now, &mut body);
    assert_eq!(record.notes, vec!["boom"]);
    assert_eq!(record.run_error.as_deref(), Some("boom"));
}

#[test]
fn replacements_compare_by_content() {
    let a = Some(BodyReplacement::Asset(asset("a")));
    assert!(!replacement_changed(&a, &a.clone()));
    assert!(replacement_changed(&a, &Some(BodyReplacement::Asset(asset("b")))));
    assert!(replacement_changed(&None, &a));
    assert!(!replacement_changed(&None, &None));
    assert!(replacement_changed(
        &Some(BodyReplacement::String("x".to_string())),
        &Some(BodyReplacement::String("y".to_string()))
    ));
}

#[test]
fn migration_names_and_steps() {
    assert_eq!(modified_body_file_name(12, "response"), "12-response.body.modified");
    assert_eq!(migration_asset_id(3, "12-response.body.modified"), "mig/3/12-response.body.modified");
    assert_eq!(
        final_body_step(false, None),
        FinalBodyStep::Keep(BodySourceType::Original)
    );
    assert_eq!(
        final_body_step(
            true,
            Some(BodySourceType::Asset {
                asset_id: "kept".to_string()
            })
        ),
        FinalBodyStep::KeepAssetIfStored("kept".to_string())
    );
    assert_eq!(
        final_body_step(
            true,
            Some(BodySourceType::String {
                content: "x".to_string()
            })
        ),
        FinalBodyStep::Import
    );
    assert_eq!(
        imported_content_type(&headers(&[("Content-Type", &["text/html", "x"])])),
        "text/html"
    );
    assert_eq!(imported_content_type(&HeaderValues::new()), "");
    assert!(!keeps_modification_kind(Some("snapshot")));
    assert!(!keeps_modification_kind(Some("body_replace_file")));
    assert!(keeps_modification_kind(Some("header_set")));
    assert!(keeps_modification_kind(None));
}

#[test]
fn header_lookups_ignore_ascii_case() {
    let mut h = headers(&[
        ("Content-Encoding", &["gzip, identity", " BR "]),
        ("content-type", &["application/json; charset=utf-8"]),
    ]);
    assert!(eq_ignore_ascii_case("Content-Type", "content-TYPE"));
    assert_eq!(existing_header_name(&h, "content-encoding").as_deref(), Some("Content-Encoding"));
    assert_eq!(first_header(&h, "CONTENT-TYPE"), Some("application/json; charset=utf-8"));
    assert_eq!(content_encodings(&h), vec!["gzip", "br"]);
    assert_eq!(header_tokens(&h, "content-encoding"), vec!["gzip", "br"]);
    assert_eq!(first_header_tokens(&h, "content-encoding"), vec!["gzip", "br"]);
    assert_eq!(
        value_list_tokens(&vec!["a, b".to_string(), "".to_string(), "Identity".to_string()]),
        vec!["a", "b"]
    );
    assert!(is_textual("application/json; charset=utf-8"));
    assert!(is_textual("text/css"));
    assert!(!is_textual("image/png"));
    assert_eq!(
        remove_header(&mut h, "CONTENT-ENCODING"),
        Some(vec!["gzip, identity".to_string(), " BR ".to_string()])
    );
    assert!(h.get("Content-Encoding").is_none());
    assert!(response_status_has_body(200));
    assert!(!response_status_has_body(204));
    assert!(!response_status_has_body(304));
    assert!(!response_status_has_body(101));
}

#[test]
fn hop_by_hop_headers_follow_connection() {
    let values = vec!["Keep-Alive, X-Private".to_string(), " upgrade ".to_string()];
    assert_eq!(connection_header_names(&values), vec!["keep-alive", "x-private", "upgrade"]);
    let plan = hop_by_hop_plan(&values, false);
    assert!(!plan.set_connection_upgrade);
    assert_eq!(
        plan.remove,
        vec![
            "keep-alive",
            "x-private",
            "upgrade",
            "keep-alive",
            "proxy-authenticate",
            "proxy-authorization",
            "proxy-connection",
            "te",
            "trailer",
            "connection",
            "upgrade"
        ]
    );
    let upgrade = hop_by_hop_plan(&values, true);
    assert!(upgrade.set_connection_upgrade);
    assert!(!upgrade.remove.iter().any(|name| name == "upgrade"));
}

#[test]
fn asset_store_layout_and_availability() {
    assert_eq!(assets_directory(), "assets");
    assert_eq!(metadata_directory(), ".metadata");
    assert_eq!(uploads_directory(), ".asset-uploads");
    assert_eq!(metadata_file("a/b"), "a/b.json");
    let store = AssetStore::new(
        PathBuf::from("/w/assets"),
        PathBuf::from("/w/assets/.metadata"),
        PathBuf::from("/w/assets/.asset-uploads"),
    );
    assert_eq!(store.assets_path(), &PathBuf::from("/w/assets"));
    assert_eq!(store.uploads_path(), &PathBuf::from("/w/assets/.asset-uploads"));
    assert_eq!(store.asset_path("a/b"), PathBuf::from("/w/assets/a/b"));
    assert_eq!(store.metadata_path("a/b"), PathBuf::from("/w/assets/.metadata/a/b.json"));
    assert!(matches!(
        asset_availability("x", true, false, false, false),
        Err(AssetError::PathConflict(ref id)) if id == "x"
    ));
    assert!(matches!(
        asset_availability("x", false, false, true, false),
        Err(AssetError::AlreadyExists(ref id)) if id == "x"
    ));
    assert!(matches!(
        asset_availability("x", false, false, false, true),
        Err(AssetError::PathConflict(ref id)) if id == "x"
    ));
    assert!(asset_availability("x", false, false, false, false).is_ok());
}

#[test]
fn defaults_and_text_helpers() {
    assert_eq!(default_proxy_host(), "0.0.0.0");
    assert_eq!(default_proxy_port(), 8089);
    assert_eq!(default_api_port(), 18089);
    assert_eq!(u64_text(0), "0");
    assert_eq!(u64_text(18446744073709551615), "18446744073709551615");
    assert_eq!(i64_text(i64::MIN), "-9223372036854775808");
    assert_eq!(to_ascii_lowercase("MiXeD-Ä"), "mixed-Ä");
    assert_eq!(str_trim("\u{3000} a b \n"), "a b");
    assert!(str_contains("keep-alive, upgrade", "upgrade"));
    assert!(str_starts_with("https://x", "https://"));
    assert!(str_lt("abc", "abd"));
    assert!(str_lt("ab", "abc"));
    assert!(!str_lt("b", "abc"));
    assert_eq!(split_char("a,,b", ','), vec!["a", "", "b"]);
}
