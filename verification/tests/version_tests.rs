use cargo_git_release::version::is_valid_version_str;
use cargo_git_release::{Cli, ReleaseTool, ReleaseError};

fn cli(version: &str) -> Cli {
    Cli {
        version: version.to_string(),
        re_publish: false,
        force: false,
        message: "Release version {version}".to_string(),
        tag_prefix: "v".to_string(),
        dry_run: false,
        exclude: Vec::new(),
        only: Vec::new(),
    }
}

#[test]
fn accepts_plain_semantic_versions() {
    assert!(is_valid_version_str("1.2.3"));
    assert!(is_valid_version_str("0.0.1"));
    assert!(is_valid_version_str("10.20.30"));
}

#[test]
fn accepts_prerelease_and_build_metadata() {
    assert!(is_valid_version_str("2.0.0-beta.1"));
    assert!(is_valid_version_str("1.2.3+build.5"));
    assert!(is_valid_version_str("1.2.3-rc.1+build.2"));
    assert!(is_valid_version_str("1.2.3-alpha"));
}

#[test]
fn rejects_malformed_versions() {
    assert!(!is_valid_version_str("1.2"));
    assert!(!is_valid_version_str("v1.2.3"));
    assert!(!is_valid_version_str(""));
    assert!(!is_valid_version_str("1.2.3-"));
    assert!(!is_valid_version_str("1.2.3+"));
    assert!(!is_valid_version_str("1.2.3.4"));
    assert!(!is_valid_version_str("1.2.3-beta_1"));
    assert!(!is_valid_version_str("1.2.3 "));
    assert!(!is_valid_version_str("a.b.c"));
    assert!(!is_valid_version_str("1.2.3-pre+meta+extra"));
}

#[test]
fn validate_version_format_reports_the_error() {
    let tool = ReleaseTool::new(cli("not-a-version"));
    assert_eq!(tool.validate_version_format(), Err(ReleaseError::InvalidVersionFormat));
    let tool = ReleaseTool::new(cli("1.2.3"));
    assert_eq!(tool.validate_version_format(), Ok(()));
}

#[test]
fn prechecks_order_and_force() {
    // an invalid version is rejected first
    let tool = ReleaseTool::new(cli("bad"));
    assert_eq!(tool.prechecks(false, &Vec::new()), Err(ReleaseError::InvalidVersionFormat));
    // force skips the format check; the repository probe decides next
    let mut args = cli("bad");
    args.force = true;
    let tool = ReleaseTool::new(args);
    assert_eq!(tool.prechecks(false, &Vec::new()), Err(ReleaseError::NotARepository));
    // a dirty tree is refused
    let tool = ReleaseTool::new(cli("1.2.3"));
    let status = b" M src/lib.rs\n".to_vec();
    assert_eq!(tool.prechecks(true, &status), Err(ReleaseError::DirtyWorkingTree));
    // everything in order
    assert_eq!(tool.prechecks(true, &Vec::new()), Ok(()));
}
