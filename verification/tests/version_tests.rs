use semrel::order::{compare_versions, Cmp};
use semrel::version::{
    format_version, increment_major, increment_minor, increment_patch, parse_version,
    with_prerelease, PreId, Version,
};
use semrel::ReleaseError;

fn v(major: u64, minor: u64, patch: u64) -> Version {
    Version { major, minor, patch, pre: vec![] }
}

fn parse_ok(text: &str) -> Version {
    parse_version(text.as_bytes()).expect("should parse")
}

fn round_trips(text: &str) {
    let parsed = parse_ok(text);
    assert_eq!(format_version(&parsed), text.as_bytes().to_vec());
}

#[test]
fn parse_plain_version() {
    let p = parse_ok("1.2.3");
    assert_eq!(p.major, 1);
    assert_eq!(p.minor, 2);
    assert_eq!(p.patch, 3);
    assert!(p.pre.is_empty());
}

#[test]
fn parse_prerelease_version() {
    let p = parse_ok("1.2.3-dev");
    assert_eq!(p.major, 1);
    assert_eq!(p.pre.len(), 1);
    match &p.pre[0] {
        PreId::Alpha(t) => assert_eq!(t, &b"dev".to_vec()),
        PreId::Num(_) => panic!("dev is not numeric"),
    }
}

#[test]
fn parse_numeric_prerelease() {
    let p = parse_ok("1.2.3-0.42.alpha7");
    assert_eq!(p.pre.len(), 3);
    assert!(matches!(p.pre[0], PreId::Num(0)));
    assert!(matches!(p.pre[1], PreId::Num(42)));
    assert!(matches!(&p.pre[2], PreId::Alpha(t) if t == &b"alpha7".to_vec()));
}

#[test]
fn format_parse_round_trip() {
    round_trips("0.0.0");
    round_trips("1.2.3");
    round_trips("10.20.30");
    round_trips("1.0.0-dev");
    round_trips("1.0.0-alpha.1");
    round_trips("1.0.0-007");
    round_trips("18446744073709551615.0.1");
}

#[test]
fn parse_rejects_malformed() {
    for bad in [
        "", "1", "1.2", "1.2.", "1.2.3.4", "01.2.3", "1.02.3", "1.2.x", "v1.2.3", "1.2.3-",
        "1.2.3-a.", "1.2.3-a..b", "1.2.3-a_b", "1.2.3 ", " 1.2.3", "1.-2.3",
        "18446744073709551616.0.0",
    ] {
        assert!(
            matches!(parse_version(bad.as_bytes()), Err(ReleaseError::FormatError)),
            "{bad:?} should be rejected"
        );
    }
}

#[test]
fn huge_numeric_prerelease_token_kept_verbatim() {
    round_trips("1.0.0-18446744073709551616");
}

#[test]
fn format_exact_text() {
    assert_eq!(format_version(&v(1, 2, 3)), b"1.2.3".to_vec());
    let dev = with_prerelease(&v(1, 3, 0), b"dev".to_vec());
    assert_eq!(format_version(&dev), b"1.3.0-dev".to_vec());
}

#[test]
fn increment_patch_only_bumps_patch() {
    let p = increment_patch(&parse_ok("1.2.3-dev"));
    assert_eq!((p.major, p.minor, p.patch), (1, 2, 4));
    assert!(p.pre.is_empty());
    assert_eq!(compare_versions(&parse_ok("1.2.3-dev"), &p), Cmp::Lt);
    assert_eq!(compare_versions(&v(1, 2, 3), &increment_patch(&v(1, 2, 3))), Cmp::Lt);
}

#[test]
fn increment_minor_zeroes_patch_and_strips_pre() {
    let p = increment_minor(&parse_ok("1.2.3-dev"));
    assert_eq!((p.major, p.minor, p.patch), (1, 3, 0));
    assert!(p.pre.is_empty());
}

#[test]
fn increment_major_zeroes_lower_and_strips_pre() {
    let p = increment_major(&parse_ok("1.2.3-dev"));
    assert_eq!((p.major, p.minor, p.patch), (2, 0, 0));
    assert!(p.pre.is_empty());
}

#[test]
fn order_compares_components_numerically() {
    assert_eq!(compare_versions(&v(1, 2, 3), &v(1, 2, 3)), Cmp::Eq);
    assert_eq!(compare_versions(&v(1, 2, 3), &v(1, 10, 0)), Cmp::Lt);
    assert_eq!(compare_versions(&v(2, 0, 0), &v(1, 9, 9)), Cmp::Gt);
    assert_eq!(compare_versions(&v(0, 9, 0), &v(1, 0, 0)), Cmp::Lt);
}

#[test]
fn order_release_above_prerelease() {
    assert_eq!(compare_versions(&parse_ok("1.0.0-dev"), &parse_ok("1.0.0")), Cmp::Lt);
    assert_eq!(compare_versions(&parse_ok("1.0.0"), &parse_ok("1.0.0-dev")), Cmp::Gt);
}

#[test]
fn order_prerelease_identifiers() {
    assert_eq!(compare_versions(&parse_ok("1.0.0-1"), &parse_ok("1.0.0-alpha")), Cmp::Lt);
    assert_eq!(compare_versions(&parse_ok("1.0.0-2"), &parse_ok("1.0.0-10")), Cmp::Lt);
    assert_eq!(compare_versions(&parse_ok("1.0.0-alpha"), &parse_ok("1.0.0-beta")), Cmp::Lt);
    assert_eq!(compare_versions(&parse_ok("1.0.0-alpha"), &parse_ok("1.0.0-alpha.1")), Cmp::Lt);
    assert_eq!(compare_versions(&parse_ok("1.0.0-alpha.1"), &parse_ok("1.0.0-alpha.1")), Cmp::Eq);
}

#[test]
fn with_prerelease_replaces_identifiers() {
    let base = parse_ok("2.5.0-alpha.1");
    let dev = with_prerelease(&base, b"dev".to_vec());
    assert_eq!((dev.major, dev.minor, dev.patch), (2, 5, 0));
    assert_eq!(dev.pre.len(), 1);
    assert!(matches!(&dev.pre[0], PreId::Alpha(t) if t == &b"dev".to_vec()));
}
