use chatview::version::{is_newer_version, normalize_version_string, parse_simple_version,
    SimpleVersion};

#[test]
fn parse_simple_version_accepts_v_prefix() {
    assert_eq!(
        parse_simple_version("v1.2.3"),
        Some(SimpleVersion { major: 1, minor: 2, patch: 3 })
    );
}

#[test]
fn parse_simple_version_rejects_invalid_shapes() {
    assert_eq!(parse_simple_version("1.2"), None);
    assert_eq!(parse_simple_version("1.2.3.4"), None);
    assert_eq!(parse_simple_version("v1.two.3"), None);
}

#[test]
fn parse_simple_version_ignores_prerelease_suffix() {
    assert_eq!(
        parse_simple_version("v2.4.6-rc1"),
        Some(SimpleVersion { major: 2, minor: 4, patch: 6 })
    );
}

#[test]
fn normalize_version_string_accepts_release_tag() {
    assert_eq!(normalize_version_string("v0.10.0").as_deref(), Some("0.10.0"));
}

#[test]
fn is_newer_version_compares_semver_triplets() {
    assert!(is_newer_version("0.3.0", "0.2.9"));
    assert!(!is_newer_version("0.2.9", "0.3.0"));
    assert!(!is_newer_version("bad", "0.3.0"));
}

#[test]
fn parse_simple_version_trims_whitespace() {
    assert_eq!(
        parse_simple_version("  v7.0.1 \n"),
        Some(SimpleVersion { major: 7, minor: 0, patch: 1 })
    );
}

#[test]
fn parse_simple_version_rejects_empty_and_overflow() {
    assert_eq!(parse_simple_version(""), None);
    assert_eq!(parse_simple_version("v"), None);
    // one past u64::MAX in the major slot
    assert_eq!(parse_simple_version("18446744073709551616.0.0"), None);
    // exactly u64::MAX still parses
    assert_eq!(
        parse_simple_version("18446744073709551615.0.0"),
        Some(SimpleVersion { major: u64::MAX, minor: 0, patch: 0 })
    );
}

#[test]
fn normalize_version_string_rejects_bad_tags() {
    assert_eq!(normalize_version_string("not-a-version"), None);
    assert_eq!(normalize_version_string("1.2"), None);
}

#[test]
fn is_newer_version_orders_minor_and_patch() {
    assert!(is_newer_version("1.1.0", "1.0.9"));
    assert!(is_newer_version("1.0.1", "1.0.0"));
    assert!(!is_newer_version("1.0.0", "1.0.0"));
    assert!(!is_newer_version("0.3.0", "bad"));
}
