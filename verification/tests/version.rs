use nulctl::version::{
    cdn_base, cdn_version_url, fetched_text, github_release_url, parse_github_tag, semver_is_newer,
    update_available, version_from_tag,
};

#[test]
fn semver_is_newer_compares_patch() {
    assert!(semver_is_newer("1.3.0", "1.2.0"));
    assert!(!semver_is_newer("1.2.0", "1.3.0"));
}

#[test]
fn semver_is_newer_strips_v_prefix() {
    assert!(semver_is_newer("v2.0.0", "1.9.9"));
}

#[test]
fn semver_is_newer_equal_is_false() {
    assert!(!semver_is_newer("1.2.0", "1.2.0"));
}

#[test]
fn update_available_when_latest_newer() {
    assert_eq!(update_available("1.2.0", Some("1.3.0")), Some("1.3.0".to_string()));
}

#[test]
fn update_available_none_when_up_to_date() {
    assert!(update_available("1.3.0", Some("1.3.0")).is_none());
}

#[test]
fn update_available_when_current_unknown() {
    assert_eq!(update_available("?", Some("1.3.0")), Some("1.3.0".to_string()));
}

#[test]
fn parse_github_tag_strips_v_prefix() {
    let body = r#"{"tag_name":"v2.1.0"}"#;
    assert_eq!(parse_github_tag(body), Some("2.1.0".to_string()));
}

#[test]
fn parse_github_tag_rejects_bad_bodies() {
    assert_eq!(parse_github_tag("not json"), None);
    assert_eq!(parse_github_tag(r#"{"name":"v1"}"#), None);
    assert_eq!(parse_github_tag(r#"{"tag_name":7}"#), None);
    assert_eq!(parse_github_tag(r#"{"tag_name":" vv "}"#), None);
}

#[test]
fn semver_reads_prerelease_and_missing_fields() {
    assert!(semver_is_newer("1.2.3-beta", "1.2.2"));
    assert!(!semver_is_newer("1.2", "1.2.0"));
    assert!(semver_is_newer("1.10.0", "1.9.0"));
    assert!(!semver_is_newer("garbage", "0.0.0"));
}

#[test]
fn update_available_needs_a_latest_version() {
    assert!(update_available("1.0.0", None).is_none());
    assert!(update_available("2.0.0", Some("1.0.0")).is_none());
}

#[test]
fn version_urls() {
    assert_eq!(
        github_release_url("nulnet/nulnet"),
        "https://api.github.com/repos/nulnet/nulnet/releases/latest"
    );
    assert_eq!(cdn_version_url("https://cdn.example//"), "https://cdn.example/version.txt");
    assert_eq!(cdn_version_url("https://cdn.example"), "https://cdn.example/version.txt");
}

#[test]
fn fetched_text_trims_and_rejects_blank() {
    assert_eq!(fetched_text("  1.4.0\n"), Some("1.4.0".to_string()));
    assert_eq!(fetched_text(" \n "), None);
    assert_eq!(cdn_base(Some("  ".to_string())), None);
    assert_eq!(cdn_base(Some("https://x".to_string())), Some("https://x".to_string()));
    assert_eq!(cdn_base(None), None);
    assert_eq!(version_from_tag(Some("v1.0".to_string())), Some("1.0".to_string()));
}
