use proxy_crab_mitm::wire::{
    append_run_error, decode_header_value, decode_hex, encode_header_value, encode_hex,
    hop_by_hop_plan, normalize_tls_error, parse_version, version_name, HttpVersion,
};

#[test]
fn recognizes_client_ca_rejection() {
    assert_eq!(
        normalize_tls_error("received fatal alert: UnknownCA"),
        "client_rejected_ca"
    );
    assert_eq!(
        normalize_tls_error("invalid peer message"),
        "tls_protocol_error"
    );
}

#[test]
fn tls_errors_are_matched_without_case_spaces_or_underscores() {
    assert_eq!(normalize_tls_error("Bad Certificate"), "client_rejected_ca");
    assert_eq!(normalize_tls_error("CERTIFICATE_UNKNOWN"), "client_rejected_ca");
    assert_eq!(normalize_tls_error("unknown_ca"), "client_rejected_ca");
    assert_eq!(normalize_tls_error(""), "tls_protocol_error");
}

#[test]
fn formats_http_versions() {
    assert_eq!(version_name(HttpVersion::Http2), "HTTP/2");
}

#[test]
fn version_names_parse_back() {
    for version in [
        HttpVersion::Http09,
        HttpVersion::Http10,
        HttpVersion::Http11,
        HttpVersion::Http2,
        HttpVersion::Http3,
    ] {
        assert_eq!(parse_version(version_name(version)), version);
    }
    assert_eq!(parse_version("HTTP/2.0"), HttpVersion::Http2);
    assert_eq!(parse_version("HTTP/3.0"), HttpVersion::Http3);
    assert_eq!(parse_version("SPDY"), HttpVersion::Http11);
}

#[test]
fn binary_headers_round_trip_without_loss() {
    let original: &[u8] = b"\xff\x80";
    let text = encode_header_value(original);
    assert!(text.starts_with("\u{e000}proxy-crab-binary:v1:"));
    assert_eq!(decode_header_value(&text).unwrap(), original.to_vec());
}

#[test]
fn text_header_values_are_kept_as_text() {
    assert_eq!(encode_header_value(b"text/plain; q=1\t"), "text/plain; q=1\t");
    assert_eq!(decode_header_value("text/plain").unwrap(), b"text/plain".to_vec());
    assert_eq!(
        decode_header_value("\u{e000}proxy-crab-binary:v1:zz").unwrap_err(),
        "invalid encoded binary header"
    );
}

#[test]
fn hex_encoding_is_lowercase_and_decoding_accepts_both_cases() {
    assert_eq!(encode_hex(&[0x00, 0xab, 0xff]), "00abff");
    assert_eq!(decode_hex("00ABff").unwrap(), vec![0x00, 0xab, 0xff]);
    assert!(decode_hex("abc").is_err());
    assert!(decode_hex("0g").is_err());
}

#[test]
fn upgrade_connection_header_is_normalized() {
    let plan = hop_by_hop_plan(&vec!["Upgrade, X-Remove".to_string()], true);
    assert!(plan.set_connection_upgrade);
    assert!(plan.remove.contains(&"x-remove".to_string()));
    assert!(!plan.remove.contains(&"upgrade".to_string()));
    assert!(!plan.remove.contains(&"connection".to_string()));
}

#[test]
fn hop_by_hop_headers_are_dropped_without_an_upgrade() {
    let plan = hop_by_hop_plan(&vec!["keep-alive, , Upgrade".to_string()], false);
    assert!(!plan.set_connection_upgrade);
    assert_eq!(
        plan.remove,
        vec![
            "keep-alive",
            "upgrade",
            "keep-alive",
            "proxy-authenticate",
            "proxy-authorization",
            "proxy-connection",
            "te",
            "trailer",
            "connection",
            "upgrade",
        ]
    );
}

#[test]
fn run_errors_are_joined_in_order() {
    let mut error = None;
    append_run_error(&mut error, "first".to_string());
    assert_eq!(error.as_deref(), Some("first"));
    append_run_error(&mut error, "second".to_string());
    assert_eq!(error.as_deref(), Some("first; second"));
}
