use std::io::Write;

use flate2::write::GzEncoder;
use flate2::Compression;

use proxy_crab_mitm::bypass::{
    first_undeletable, in_progress_message, is_deletable, marked_on_shutdown,
    missing_entry_message, outcome_name, parse_outcome, shutdown_error, BypassOutcome,
};
use proxy_crab_mitm::codec::{
    base64_decode, base64_encode, base64_encode_with, base64_url_decode, check_table_shape,
    ensure_depth, key_cost, kind_from_marker, resolve_table_kind, string_cost, url_encode_engine,
    Base64Engine, JsonEncodeBudget, JsonTableKind, JsonWarningCounts, JsonWarningState,
    LimitedWriter, CODEC_BYTE_LIMIT,
};
use proxy_crab_mitm::error::Error;
use proxy_crab_mitm::log_buffer::{event_message, message_field_text};
use proxy_crab_mitm::model::{ErrorStage, HeaderValues, InterceptorExecutionOrigin};
use proxy_crab_mitm::replay::{check_replay_headers, check_replay_request, ReplayError, ReplayRequest};
use proxy_crab_mitm::storage::{
    body_file_name, coding_for, decode_body, error_stage_name, interceptor_origin_name,
    parse_error_stage, parse_interceptor_origin, payload_kind, BodySide, Coding, DecodeBodyError,
    PayloadKind,
};

fn gzip(data: &[u8]) -> Vec<u8> {
    let mut encoder = GzEncoder::new(Vec::new(), Compression::default());
    encoder.write_all(data).unwrap();
    encoder.finish().unwrap()
}

#[test]
fn base64_module_supports_standard_url_safe_and_binary_round_trips() {
    assert_eq!(base64_encode(b"hello").unwrap(), "aGVsbG8=");
    let no_pad = url_encode_engine(Some(false)).unwrap();
    assert_eq!(base64_encode_with(no_pad, &[251, 255]).unwrap(), "-_8");
    let padded = url_encode_engine(Some(true)).unwrap();
    let text = base64_encode_with(padded, &[0, 255]).unwrap();
    assert_eq!(base64_url_decode(text.as_bytes()).unwrap(), vec![0, 255]);
    assert!(base64_decode(b"aGV sbG8=").is_err(), "standard decoding must reject whitespace");
    assert!(base64_decode(b"aGVsbG8").is_err(), "standard decoding must require canonical padding");
    assert_eq!(base64_url_decode(b"-_8=").unwrap(), vec![251, 255]);
    assert!(url_encode_engine(None).is_err(), "URL-safe encoding must require the padding boolean");
    let large = vec![b'x'; 12 * 1024 * 1024 + 1];
    assert_eq!(
        base64_encode(&large).unwrap_err(),
        "Base64 output exceeds the 16 MiB limit"
    );
}

#[test]
fn base64_round_trips_and_limits() {
    assert_eq!(base64_decode(b"aGVsbG8=").unwrap(), b"hello".to_vec());
    let text = base64_encode(&[1, 2, 3, 4]).unwrap();
    assert_eq!(base64_decode(text.as_bytes()).unwrap(), vec![1, 2, 3, 4]);
    let too_big = vec![0u8; CODEC_BYTE_LIMIT + 1];
    assert_eq!(
        base64_encode(&too_big).unwrap_err(),
        "Base64 input exceeds the 16 MiB limit"
    );
    assert_eq!(
        base64_encode_with(Base64Engine::UrlSafeNoPad, b"").unwrap(),
        ""
    );
}

#[test]
fn json_encoding_rules() {
    assert_eq!(kind_from_marker(Some("array")), Some(JsonTableKind::Array));
    assert_eq!(kind_from_marker(Some("object")), Some(JsonTableKind::Object));
    assert_eq!(kind_from_marker(Some("list")), None);
    assert_eq!(JsonTableKind::Array.as_str(), "array");
    assert_eq!(resolve_table_kind(None, 0, 0).unwrap(), JsonTableKind::Object);
    assert_eq!(resolve_table_kind(None, 2, 0).unwrap(), JsonTableKind::Array);
    assert!(resolve_table_kind(None, 1, 1).is_err());
    assert_eq!(
        resolve_table_kind(Some(JsonTableKind::Array), 0, 3).unwrap(),
        JsonTableKind::Array
    );

    let mut budget = JsonEncodeBudget::default();
    assert!(check_table_shape(JsonTableKind::Array, &mut budget, &vec![1, 2, 3], 0).is_ok());
    assert_eq!(budget.estimated_output_bytes, 5);
    assert!(check_table_shape(JsonTableKind::Array, &mut budget, &vec![1, 3], 0).is_err());
    assert!(check_table_shape(JsonTableKind::Object, &mut budget, &vec![1], 2).is_err());
    assert!(budget.charge(CODEC_BYTE_LIMIT).is_err());

    assert!(ensure_depth(127).is_ok());
    assert!(ensure_depth(128).is_err());
    assert_eq!(string_cost(3), 5);
    assert_eq!(key_cost(3), 6);
    assert_eq!(string_cost(usize::MAX), usize::MAX);

    let mut writer = LimitedWriter::new(4);
    assert_eq!(writer.write(b"abc").unwrap(), 3);
    assert!(writer.write(b"de").is_err());
    assert_eq!(writer.into_inner(), b"abc".to_vec());
}

#[test]
fn json_warning_counts_reset_when_taken() {
    let mut state = JsonWarningState::new();
    state.note_lossy_number();
    state.note_duplicate_key();
    state.note_duplicate_key();
    let counts = state.take();
    assert_eq!(counts.lossy_numbers, 1);
    assert_eq!(counts.duplicate_keys, 2);
    assert!(!counts.is_empty());
    assert!(state.take().is_empty());
    state.add(JsonWarningCounts {
        lossy_numbers: 2,
        duplicate_keys: 0,
    });
    assert_eq!(state.take().lossy_numbers, 2);
}

#[test]
fn compressed_body_decode_is_output_bounded() {
    let compressed = gzip(&vec![b'a'; 4096]);
    assert!(decode_body(&compressed, "gzip", 128).is_err());
    assert_eq!(
        decode_body(&compressed, "gzip", 128).unwrap_err(),
        DecodeBodyError::TooLarge
    );
}

#[test]
fn body_decoding_follows_content_encoding() {
    let compressed = gzip(b"hello");
    assert_eq!(decode_body(&compressed, "gzip", 64).unwrap(), b"hello".to_vec());
    let twice = gzip(&compressed);
    assert_eq!(decode_body(&twice, "gzip, gzip", 64).unwrap(), b"hello".to_vec());
    assert_eq!(decode_body(b"plain", "", 64).unwrap(), b"plain".to_vec());
    assert_eq!(
        decode_body(b"plain", "compress", 64).unwrap_err(),
        DecodeBodyError::Failed
    );
    assert_eq!(decode_body(b"not gzip", "gzip", 64).unwrap_err(), DecodeBodyError::Failed);
    assert_eq!(coding_for("br"), Some(Coding::Brotli));
    assert_eq!(coding_for("identity"), None);
}

#[test]
fn stored_names_round_trip() {
    assert_eq!(body_file_name(7, BodySide::Request, false), "7-request.body");
    assert_eq!(body_file_name(7, BodySide::Response, true), "7-response.body.modified");
    for stage in [
        ErrorStage::Connect,
        ErrorStage::TlsHandshake,
        ErrorStage::RequestBody,
        ErrorStage::Interceptor,
        ErrorStage::Upstream,
        ErrorStage::ResponseBody,
    ] {
        assert_eq!(parse_error_stage(error_stage_name(stage)), stage);
    }
    assert_eq!(parse_error_stage("unknown"), ErrorStage::Connect);
    for origin in [
        InterceptorExecutionOrigin::Saved,
        InterceptorExecutionOrigin::Temporary,
    ] {
        assert_eq!(parse_interceptor_origin(interceptor_origin_name(origin)), origin);
    }
    for outcome in [
        BypassOutcome::InProgress,
        BypassOutcome::Success,
        BypassOutcome::Failed,
    ] {
        assert_eq!(parse_outcome(outcome_name(outcome)), outcome);
    }
}

#[test]
fn payload_kinds() {
    let mut json = HeaderValues::new();
    json.insert("Content-Type".to_string(), vec!["application/json".to_string()]);
    assert_eq!(payload_kind(b"{\"a\":1}", &json), PayloadKind::Json);
    assert_eq!(payload_kind(b"", &json), PayloadKind::Empty);
    let mut text = HeaderValues::new();
    text.insert("content-type".to_string(), vec!["text/plain".to_string()]);
    assert_eq!(payload_kind(b"hi", &text), PayloadKind::Text);
    assert_eq!(payload_kind(&[0xff, 0xfe], &text), PayloadKind::Binary);
    assert_eq!(payload_kind(b"hi", &HeaderValues::new()), PayloadKind::Binary);
    assert_eq!(payload_kind(&vec![b'a'; 65537], &text), PayloadKind::Large);
}

#[test]
fn lifecycle_and_deletion_rules() {
    assert!(is_deletable(BypassOutcome::Success, 10, Some(5)));
    assert!(!is_deletable(BypassOutcome::InProgress, 10, Some(5)));
    assert!(is_deletable(BypassOutcome::InProgress, 10, None));
    assert_eq!(shutdown_error(), "proxy_shutdown");
    assert_eq!(in_progress_message(4), "bypass entry 4 is still in progress");
    assert_eq!(missing_entry_message(4), "bypass entry 4 not found");
}

#[test]
fn stale_in_progress_entries_are_deletable() {
    assert!(is_deletable(BypassOutcome::InProgress, 4, Some(5)));
    let batch = vec![
        (1, BypassOutcome::InProgress, 1),
        (2, BypassOutcome::InProgress, 9),
        (3, BypassOutcome::Failed, 9),
    ];
    assert_eq!(first_undeletable(&batch, Some(5)), Some(2));
    assert_eq!(first_undeletable(&batch, None), None);
}

#[test]
fn generation_shutdown_only_finalizes_ids_inside_its_range() {
    assert!(marked_on_shutdown(5, BypassOutcome::InProgress, 3, 7));
    assert!(!marked_on_shutdown(8, BypassOutcome::InProgress, 3, 7));
    assert!(!marked_on_shutdown(2, BypassOutcome::InProgress, 3, 7));
    assert!(!marked_on_shutdown(5, BypassOutcome::Success, 3, 7));
}

#[test]
fn error_messages() {
    assert_eq!(Error::SessionNotFound(3).message(), "session 3 not found");
    assert_eq!(
        Error::BypassEntryInProgress(12).message(),
        "bypass entry 12 is still in progress"
    );
    assert_eq!(
        Error::ScriptNotFound("a".to_string()).message(),
        "script a not found"
    );
    assert_eq!(Error::InvalidArgument("x".to_string()).message(), "x");
}

#[test]
fn replay_requests_are_checked() {
    let mut request = ReplayRequest {
        method: "GET".to_string(),
        url: "https://example.test/".to_string(),
        headers: vec![],
        body: None,
    };
    assert!(check_replay_request(true, &request).is_ok());
    assert_eq!(
        check_replay_request(false, &request).unwrap_err(),
        ReplayError::SessionNotFound
    );
    request.url = "ftp://example.test/".to_string();
    assert_eq!(
        check_replay_request(true, &request).unwrap_err().message(),
        "invalid replay request: url must be an absolute http(s) URL"
    );
    request.method = "  ".to_string();
    assert_eq!(
        check_replay_request(true, &request).unwrap_err(),
        ReplayError::Invalid("method must not be empty".to_string())
    );
    assert!(check_replay_headers(&vec![("x-a".to_string(), "1".to_string())]).is_ok());
    assert_eq!(
        check_replay_headers(&vec![("bad name".to_string(), "1".to_string())]).unwrap_err(),
        ReplayError::Invalid("invalid header name: bad name".to_string())
    );
    assert_eq!(
        check_replay_headers(&vec![("X-A".to_string(), "a\nb".to_string())]).unwrap_err(),
        ReplayError::Invalid("invalid value for header x-a".to_string())
    );
}

#[test]
fn script_content_is_hashed_with_sha256() {
    assert_eq!(
        proxy_crab_mitm::model::script_content_hash(""),
        "e3b0c44298fc1c149afbf4c8996fb92427ae41e4649b934ca495991b7852b855"
    );
    assert_eq!(
        proxy_crab_mitm::model::script_content_hash("abc"),
        "ba7816bf8f01cfea414140de5dae2223b00361a396177a9cb410ff61f20015ad"
    );
}

#[test]
fn log_events_are_joined_into_one_line() {
    assert_eq!(message_field_text("\"hello\""), "hello");
    assert_eq!(message_field_text("\"\""), "");
    assert_eq!(message_field_text("plain"), "plain");
    let fields = vec!["a=1".to_string(), "b=2".to_string()];
    assert_eq!(event_message("started".to_string(), &fields), "started a=1 b=2");
    assert_eq!(event_message(String::new(), &fields), "a=1 b=2");
    assert_eq!(event_message("only".to_string(), &Vec::new()), "only");
    assert_eq!(event_message(String::new(), &Vec::new()), "");
}

#[test]
fn url_safe_base64_round_trips_with_and_without_padding() {
    for padding in [true, false] {
        let engine = url_encode_engine(Some(padding)).unwrap();
        for length in 0..8usize {
            let data: Vec<u8> = (0..length).map(|i| (250 + i) as u8).collect();
            let text = base64_encode_with(engine, &data).unwrap();
            assert_eq!(text.contains('='), padding && length % 3 != 0);
            assert_eq!(base64_url_decode(text.as_bytes()).unwrap(), data);
        }
    }
}

#[test]
fn refused_base64_names_the_alphabet() {
    assert!(base64_decode(b"aGV sbG8=")
        .unwrap_err()
        .starts_with("invalid standard Base64: "));
    assert!(base64_url_decode(b"+/8=")
        .unwrap_err()
        .starts_with("invalid URL-safe Base64: "));
    let too_long = vec![b'A'; CODEC_BYTE_LIMIT + 1];
    assert_eq!(
        base64_decode(&too_long).unwrap_err(),
        "Base64 input exceeds the 16 MiB limit"
    );
}

#[test]
fn brotli_zstd_and_deflate_bodies_decode() {
    let mut brotli_bytes = Vec::new();
    {
        let mut writer = brotli::CompressorWriter::new(&mut brotli_bytes, 4096, 5, 22);
        writer.write_all(b"hello brotli").unwrap();
    }
    assert_eq!(
        decode_body(&brotli_bytes, "br", 64).unwrap(),
        b"hello brotli".to_vec()
    );
    let zstd_bytes = zstd::stream::encode_all(&b"hello zstd"[..], 3).unwrap();
    assert_eq!(
        decode_body(&zstd_bytes, "zstd", 64).unwrap(),
        b"hello zstd".to_vec()
    );
    let mut zlib = flate2::write::ZlibEncoder::new(Vec::new(), Compression::default());
    zlib.write_all(b"hello deflate").unwrap();
    let deflate_bytes = zlib.finish().unwrap();
    assert_eq!(
        decode_body(&deflate_bytes, "deflate", 64).unwrap(),
        b"hello deflate".to_vec()
    );
    let gzip_then_br = {
        let inner = gzip(b"layered");
        let mut out = Vec::new();
        {
            let mut writer = brotli::CompressorWriter::new(&mut out, 4096, 5, 22);
            writer.write_all(&inner).unwrap();
        }
        out
    };
    assert_eq!(
        decode_body(&gzip_then_br, "gzip, br", 64).unwrap(),
        b"layered".to_vec()
    );
}
