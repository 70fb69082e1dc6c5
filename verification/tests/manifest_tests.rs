use cargo_git_release::manifest::CrateOutcome;
use cargo_git_release::tool::manifest_declares_workspace;
use cargo_git_release::{Cli, ReleaseTool, ReleaseError};

fn cli(version: &str) -> Cli {
    Cli {
        version: version.to_string(),
        re_publish: false,
        force: false,
        message: "Release version {version}".to_string(),
        tag_prefix: "v".to_string(),
        dry_run: false,
        exclude: Vec::new(),
        only: Vec::new(),
    }
}

const MANIFEST_A: &str = r#"
[package]
name = "a"
version = "0.1.0"
edition = "2021"

[dependencies]
serde = { version = "1", features = ["derive"] }

[package.metadata.extra]
keys = ["x", "y"]
nested = { deep = 7 }
"#;

const MANIFEST_B: &str = r#"
[package]
name = "b"
version = "0.1.0"
"#;

#[test]
fn update_rewrites_the_version() {
    let mut tool = ReleaseTool::new(cli("2.0.0"));
    let out = tool
        .update_single_crate(&"a/Cargo.toml".to_string(), &MANIFEST_A.to_string())
        .unwrap();
    match out {
        CrateOutcome::Updated { name, old_version, new_content } => {
            assert_eq!(name, "a");
            assert_eq!(old_version, "0.1.0");
            let reparsed: toml::Value = toml::from_str(&new_content).unwrap();
            assert_eq!(reparsed["package"]["version"].as_str(), Some("2.0.0"));
        },
        other => panic!("expected an update, got {:?}", other),
    }
    assert_eq!(tool.updated_files, vec!["a/Cargo.toml".to_string()]);
}

#[test]
fn update_preserves_every_other_key() {
    let mut tool = ReleaseTool::new(cli("2.0.0"));
    let out = tool
        .update_single_crate(&"a/Cargo.toml".to_string(), &MANIFEST_A.to_string())
        .unwrap();
    let new_content = match out {
        CrateOutcome::Updated { new_content, .. } => new_content,
        other => panic!("expected an update, got {:?}", other),
    };
    let mut original: toml::Value = toml::from_str(MANIFEST_A).unwrap();
    let rewritten: toml::Value = toml::from_str(&new_content).unwrap();
    original["package"]["version"] = toml::Value::String("2.0.0".to_string());
    assert_eq!(original, rewritten);
}

#[test]
fn excluded_package_is_left_alone() {
    let mut args = cli("2.0.0");
    args.exclude = vec!["b".to_string()];
    let mut tool = ReleaseTool::new(args);
    let out_a = tool
        .update_single_crate(&"a/Cargo.toml".to_string(), &MANIFEST_A.to_string())
        .unwrap();
    assert!(matches!(out_a, CrateOutcome::Updated { .. }));
    let out_b = tool
        .update_single_crate(&"b/Cargo.toml".to_string(), &MANIFEST_B.to_string())
        .unwrap();
    assert_eq!(out_b, CrateOutcome::Skipped { name: "b".to_string() });
    // only a's manifest was recorded as rewritten
    assert_eq!(tool.updated_files, vec!["a/Cargo.toml".to_string()]);
}

#[test]
fn only_list_selects_what_is_rewritten() {
    let mut args = cli("2.0.0");
    args.only = vec!["a".to_string()];
    let mut tool = ReleaseTool::new(args);
    let files = vec![
        ("a/Cargo.toml".to_string(), MANIFEST_A.to_string()),
        ("b/Cargo.toml".to_string(), MANIFEST_B.to_string()),
    ];
    let outcomes = tool.update_workspace_versions(&files).unwrap();
    assert_eq!(outcomes.len(), 2);
    assert!(matches!(outcomes[0].1, CrateOutcome::Updated { .. }));
    assert_eq!(outcomes[1].1, CrateOutcome::Skipped { name: "b".to_string() });
    assert_eq!(tool.updated_files, vec!["a/Cargo.toml".to_string()]);
}

#[test]
fn manifest_without_package_section_is_skipped() {
    let mut tool = ReleaseTool::new(cli("2.0.0"));
    let out = tool
        .update_single_crate(&"Cargo.toml".to_string(), &"[workspace]\nmembers = []\n".to_string())
        .unwrap();
    assert_eq!(out, CrateOutcome::NoPackage);
    assert!(tool.updated_files.is_empty());
}

#[test]
fn broken_manifest_is_a_parse_error() {
    let mut tool = ReleaseTool::new(cli("2.0.0"));
    let r = tool.update_single_crate(&"Cargo.toml".to_string(), &"not toml [".to_string());
    assert_eq!(r, Err(ReleaseError::ManifestParse));
    // a package section without a version string is refused too
    let r = tool.update_single_crate(
        &"Cargo.toml".to_string(),
        &"[package]\nname = \"a\"\n".to_string(),
    );
    assert_eq!(r, Err(ReleaseError::ManifestParse));
}

#[test]
fn workspace_root_shared_version_is_rewritten() {
    let root = r#"
[workspace]
members = ["a", "b"]

[workspace.package]
version = "0.1.0"
authors = ["someone"]
"#;
    let mut tool = ReleaseTool::new(cli("2.0.0"));
    let out = tool.update_root_workspace_version(&root.to_string()).unwrap();
    let (old, new_content) = out.unwrap();
    assert_eq!(old, "0.1.0");
    let reparsed: toml::Value = toml::from_str(&new_content).unwrap();
    assert_eq!(reparsed["workspace"]["package"]["version"].as_str(), Some("2.0.0"));
    assert_eq!(
        reparsed["workspace"]["members"],
        toml::Value::Array(vec![
            toml::Value::String("a".to_string()),
            toml::Value::String("b".to_string()),
        ])
    );
    assert_eq!(tool.updated_files, vec!["Cargo.toml".to_string()]);
}

#[test]
fn workspace_root_without_shared_version_is_untouched() {
    let root = "[workspace]\nmembers = [\"a\"]\n";
    let mut tool = ReleaseTool::new(cli("2.0.0"));
    let out = tool.update_root_workspace_version(&root.to_string()).unwrap();
    assert_eq!(out, None);
    assert!(tool.updated_files.is_empty());
}

#[test]
fn workspace_detection_reads_the_root_manifest() {
    assert_eq!(manifest_declares_workspace(&"[workspace]\n".to_string()), Ok(true));
    assert_eq!(
        manifest_declares_workspace(&"[package]\nname = \"a\"\nversion = \"0.1.0\"\n".to_string()),
        Ok(false)
    );
    assert_eq!(
        manifest_declares_workspace(&"nope [".to_string()),
        Err(ReleaseError::ManifestParse)
    );
}
