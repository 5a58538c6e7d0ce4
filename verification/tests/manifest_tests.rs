use semrel::command::{
    check_empty_stdout, check_success, ensure_clean, ensure_up_to_date, trim_bytes, CommandResult,
};
use semrel::manifest::patch_manifest;
use semrel::version::Version;
use semrel::ReleaseError;

fn v(major: u64, minor: u64, patch: u64) -> Version {
    Version { major, minor, patch, pre: vec![] }
}

#[test]
fn patch_rewrites_version_value() {
    let text = b"[package]\nname = \"demo\"\nversion = \"0.1.0\"\nedition = \"2021\"\n";
    let out = patch_manifest(text, &v(0, 2, 0)).expect("field present");
    assert_eq!(
        out,
        b"[package]\nname = \"demo\"\nversion = \"0.2.0\"\nedition = \"2021\"\n".to_vec()
    );
}

#[test]
fn patch_replaces_only_first_match() {
    let text = b"version = \"1.0.0\"\nother = 3\nversion = \"9.9.9\"\n";
    let out = patch_manifest(text, &v(1, 1, 0)).expect("field present");
    assert_eq!(out, b"version = \"1.1.0\"\nother = 3\nversion = \"9.9.9\"\n".to_vec());
}

#[test]
fn patch_preserves_spacing_and_other_lines() {
    let text = b"# header\nversion\t=   \"1.0.0\"  \ntail = true";
    let out = patch_manifest(text, &v(2, 0, 0)).expect("field present");
    assert_eq!(out, b"# header\nversion\t=   \"2.0.0\"  \ntail = true".to_vec());
}

#[test]
fn patch_fails_without_version_line() {
    let text = b"[package]\nname = \"demo\"\n";
    assert!(matches!(
        patch_manifest(text, &v(1, 0, 0)),
        Err(ReleaseError::VersionFieldNotFound)
    ));
}

#[test]
fn patch_ignores_near_misses() {
    // An indented key, a missing quote, and trailing text all fail the
    // pattern, so the manifest reports the field as missing.
    for text in [
        &b"  version = \"1.0.0\"\n"[..],
        &b"version = 1.0.0\n"[..],
        &b"version = \"1.0.0\" # note\n"[..],
        &b"versions = \"1.0.0\"\n"[..],
    ] {
        assert!(
            matches!(patch_manifest(text, &v(1, 1, 0)), Err(ReleaseError::VersionFieldNotFound)),
            "{:?} should not match",
            String::from_utf8_lossy(text)
        );
    }
}

#[test]
fn trim_strips_surrounding_whitespace() {
    assert_eq!(trim_bytes(b"  error: boom \n"), b"error: boom".to_vec());
    assert_eq!(trim_bytes(b"\r\n\t "), Vec::<u8>::new());
    assert_eq!(trim_bytes(b"clean"), b"clean".to_vec());
}

#[test]
fn check_success_passes_successful_result_through() {
    let r = CommandResult { success: true, stdout: b"out".to_vec(), stderr: vec![] };
    let out = check_success(r).expect("success");
    assert_eq!(out.stdout, b"out".to_vec());
}

#[test]
fn check_success_reports_trimmed_stderr() {
    let r = CommandResult { success: false, stdout: vec![], stderr: b" fatal: broken \n".to_vec() };
    match check_success(r) {
        Err(ReleaseError::CommandFailed { detail }) => assert_eq!(detail, b"fatal: broken".to_vec()),
        other => panic!("expected CommandFailed, got {:?}", other.is_ok()),
    }
}

#[test]
fn ensure_clean_reports_dirty_repository() {
    let quiet = CommandResult { success: true, stdout: vec![], stderr: vec![] };
    assert!(ensure_clean(quiet).is_ok());
    let noisy = CommandResult { success: true, stdout: b"1 .M N...\n".to_vec(), stderr: vec![] };
    assert!(matches!(ensure_clean(noisy), Err(ReleaseError::DirtyRepository { .. })));
    let broken = CommandResult { success: false, stdout: vec![], stderr: b"bad".to_vec() };
    assert!(matches!(ensure_clean(broken), Err(ReleaseError::CommandFailed { .. })));
}

#[test]
fn ensure_up_to_date_reports_behind_upstream() {
    let quiet = CommandResult { success: true, stdout: vec![], stderr: vec![] };
    assert!(ensure_up_to_date(quiet).is_ok());
    let behind = CommandResult { success: true, stdout: b"abc\n".to_vec(), stderr: vec![] };
    assert!(matches!(ensure_up_to_date(behind), Err(ReleaseError::BehindUpstream { .. })));
}

#[test]
fn check_empty_stdout_reports_unexpected_output() {
    let quiet = CommandResult { success: true, stdout: vec![], stderr: vec![] };
    assert!(check_empty_stdout(quiet).is_ok());
    let noisy = CommandResult { success: true, stdout: b" M file.rs\n".to_vec(), stderr: vec![] };
    match check_empty_stdout(noisy) {
        Err(ReleaseError::UnexpectedOutput { detail }) => {
            assert_eq!(detail, b"M file.rs".to_vec());
        },
        _ => panic!("expected UnexpectedOutput"),
    }
}
