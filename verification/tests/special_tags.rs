use proxy_crab_mitm::model::RequestTags;
use proxy_crab_mitm::tags::{
    parse_positive_decimal, parse_special_tag, parse_tls_insecure_tag, parse_u64,
    tls_insecure_from_tags,
};

#[test]
fn parses_strict_positive_ascii_decimal_values() {
    assert_eq!(parse_positive_decimal(None), Ok(None));
    assert_eq!(parse_positive_decimal(Some("1")), Ok(Some(1)));
    assert_eq!(parse_positive_decimal(Some("001")), Ok(Some(1)));
    assert_eq!(
        parse_positive_decimal(Some("18446744073709551615")),
        Ok(Some(u64::MAX))
    );

    for invalid in [
        "",
        "0",
        "-1",
        "+1",
        " 1",
        "1 ",
        "1.0",
        "1e3",
        "1KB",
        "１",
        "18446744073709551616",
    ] {
        assert_eq!(parse_positive_decimal(Some(invalid)), Err(()), "{invalid}");
    }
}

#[test]
fn parses_tls_insecure_tag_only_for_explicit_true() {
    assert_eq!(parse_tls_insecure_tag(None), Ok(false));
    assert_eq!(parse_tls_insecure_tag(Some("true")), Ok(true));

    for invalid in ["", "false", "TRUE", "True", "1", " true", "true "] {
        assert_eq!(parse_tls_insecure_tag(Some(invalid)), Err(()), "{invalid}");
    }
}

#[test]
fn special_tags_ignore_invalid_values() {
    let mut tags = RequestTags::new();
    tags.insert("_crab_req_speed".to_string(), "20".to_string());
    tags.insert("_crab_req_timeout".to_string(), "0".to_string());
    tags.insert("_crab_tls_insecure".to_string(), "yes".to_string());
    assert_eq!(parse_special_tag(&tags, "_crab_req_speed"), Some(20));
    assert_eq!(parse_special_tag(&tags, "_crab_req_timeout"), None);
    assert_eq!(parse_special_tag(&tags, "_crab_resp_speed"), None);
    assert!(!tls_insecure_from_tags(&tags));
    tags.insert("_crab_tls_insecure".to_string(), "true".to_string());
    assert!(tls_insecure_from_tags(&tags));
}

#[test]
fn u64_parsing_accepts_a_plus_sign_like_str_parse() {
    assert_eq!(parse_u64("+50"), Some(50));
    assert_eq!(parse_u64("0"), Some(0));
    assert_eq!(parse_u64("+"), None);
    assert_eq!(parse_u64("-1"), None);
    assert_eq!(parse_u64("18446744073709551616"), None);
    assert_eq!(parse_u64("18446744073709551615"), Some(u64::MAX));
}
