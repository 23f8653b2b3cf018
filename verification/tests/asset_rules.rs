use proxy_crab_mitm::asset::{asset_availability, metadata_file, validate_asset_id, AssetError};

#[test]
fn validates_asset_ids() {
    for valid in ["a", "fixtures/example.json", "body.v2/empty_file"] {
        validate_asset_id(valid).unwrap();
    }
    for invalid in [
        "",
        "/a",
        "a/",
        "a//b",
        "a/../b",
        "a/./b",
        ".metadata/a",
        "a/.metadata/b",
        "Upper",
        "a-b",
    ] {
        assert!(
            matches!(validate_asset_id(invalid), Err(AssetError::InvalidId(_))),
            "{invalid}"
        );
    }
}

#[test]
fn asset_id_length_limits() {
    let long_segment = "a".repeat(101);
    assert!(validate_asset_id(&long_segment).is_err());
    let ok_segment = "a".repeat(100);
    assert!(validate_asset_id(&ok_segment).is_ok());
    let long_id = vec!["a".repeat(50); 6].join("/");
    assert!(long_id.len() > 255);
    assert!(validate_asset_id(&long_id).is_err());
}

#[test]
fn asset_availability_checks_conflicts_in_order() {
    assert!(matches!(
        asset_availability("x", true, true, true, true),
        Err(AssetError::PathConflict(id)) if id == "x"
    ));
    assert!(matches!(
        asset_availability("x", false, false, true, true),
        Err(AssetError::AlreadyExists(_))
    ));
    assert!(matches!(
        asset_availability("x", false, false, false, true),
        Err(AssetError::PathConflict(_))
    ));
    assert!(asset_availability("x", false, false, false, false).is_ok());
    assert_eq!(metadata_file("fixtures/a.json"), "fixtures/a.json.json");
}
