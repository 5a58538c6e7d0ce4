use semrel::constraint::{build_constraint, parse_base, Constraint, Policy};
use semrel::tags::{collect_tags, contains_version, parse_tag, resolve_latest};
use semrel::version::Version;
use semrel::ReleaseError;

fn v(major: u64, minor: u64, patch: u64) -> Version {
    Version { major, minor, patch, pre: vec![] }
}

fn triple(ver: &Version) -> (u64, u64, u64) {
    (ver.major, ver.minor, ver.patch)
}

#[test]
fn parse_tag_accepts_release_tags() {
    let t = parse_tag(b"v1.2.3").expect("release tag");
    assert_eq!(triple(&t), (1, 2, 3));
}

#[test]
fn parse_tag_ignores_other_names() {
    assert!(parse_tag(b"1.2.3").is_none());
    assert!(parse_tag(b"v1.2.3-dev").is_none());
    assert!(parse_tag(b"v1.2").is_none());
    assert!(parse_tag(b"release-1.2.3").is_none());
    assert!(parse_tag(b"v01.2.3").is_none());
    assert!(parse_tag(b"").is_none());
}

#[test]
fn collect_tags_filters_listing() {
    let listing = b"v1.2.0\nnightly\nv1.3.0\n\nv2.0.0\nv2.0.0-rc.1";
    let tags = collect_tags(listing);
    let triples: Vec<(u64, u64, u64)> = tags.iter().map(triple).collect();
    assert_eq!(triples, vec![(1, 2, 0), (1, 3, 0), (2, 0, 0)]);
}

#[test]
fn resolver_picks_latest_in_major_line() {
    let tags = vec![v(1, 2, 0), v(1, 3, 0), v(2, 0, 0)];
    let got = resolve_latest(&tags, &Constraint::MajorLine(1)).expect("match");
    assert_eq!(triple(&got), (1, 3, 0));
}

#[test]
fn resolver_picks_latest_in_minor_line() {
    let tags = vec![v(1, 2, 0), v(1, 3, 0), v(2, 0, 0)];
    let got = resolve_latest(&tags, &Constraint::MinorLine(1, 2)).expect("match");
    assert_eq!(triple(&got), (1, 2, 0));
}

#[test]
fn resolver_picks_overall_latest_without_constraint() {
    let tags = vec![v(1, 2, 0), v(2, 0, 0), v(1, 3, 0)];
    let got = resolve_latest(&tags, &Constraint::Any).expect("match");
    assert_eq!(triple(&got), (2, 0, 0));
}

#[test]
fn resolver_fails_when_nothing_matches() {
    let tags = vec![v(1, 2, 0), v(1, 3, 0)];
    assert!(matches!(
        resolve_latest(&tags, &Constraint::MajorLine(3)),
        Err(ReleaseError::NoMatchingVersion)
    ));
    let none: Vec<Version> = vec![];
    assert!(matches!(
        resolve_latest(&none, &Constraint::Any),
        Err(ReleaseError::NoMatchingVersion)
    ));
}

#[test]
fn contains_version_compares_by_value() {
    let tags = vec![v(1, 2, 0), v(1, 3, 0)];
    assert!(contains_version(&tags, &v(1, 3, 0)));
    assert!(!contains_version(&tags, &v(1, 4, 0)));
}

#[test]
fn parse_base_reads_major_and_minor_lines() {
    assert_eq!(parse_base(b"2").expect("major line"), Constraint::MajorLine(2));
    assert_eq!(parse_base(b"1.4").expect("minor line"), Constraint::MinorLine(1, 4));
}

#[test]
fn parse_base_rejects_malformed_text() {
    for bad in ["", "x", "1.", ".4", "1.2.3", "01", "1.x", "1 2"] {
        assert!(
            matches!(parse_base(bad.as_bytes()), Err(ReleaseError::FormatError)),
            "{bad:?} should be rejected"
        );
    }
}

#[test]
fn minor_line_base_requires_patch_policy() {
    let base = Some(b"1.2".to_vec());
    assert!(matches!(
        build_constraint(Policy::Patch, &base),
        Ok(Constraint::MinorLine(1, 2))
    ));
    assert!(matches!(
        build_constraint(Policy::Minor, &base),
        Err(ReleaseError::FormatError)
    ));
    assert!(matches!(
        build_constraint(Policy::Major, &base),
        Err(ReleaseError::FormatError)
    ));
}

#[test]
fn default_policy_is_minor() {
    assert_eq!(Policy::default(), Policy::Minor);
}

#[test]
fn major_line_base_allowed_with_any_policy() {
    let base = Some(b"1".to_vec());
    assert!(matches!(build_constraint(Policy::Minor, &base), Ok(Constraint::MajorLine(1))));
    assert!(matches!(build_constraint(Policy::Major, &base), Ok(Constraint::MajorLine(1))));
    assert!(matches!(build_constraint(Policy::Patch, &base), Ok(Constraint::MajorLine(1))));
    assert!(matches!(build_constraint(Policy::Minor, &None), Ok(Constraint::Any)));
}
