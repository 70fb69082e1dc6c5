use cargo_git_release::textops::{filter_manifest_paths, make_tag_name, path_is_manifest,
    split_lines, substitute_version};
use cargo_git_release::{Cli, ReleaseTool, ReleaseError};

fn cli(version: &str) -> Cli {
    Cli {
        version: version.to_string(),
        re_publish: false,
        force: false,
        message: "Release version {version}".to_string(),
        tag_prefix: "v".to_string(),
        dry_run: false,
        exclude: Vec::new(),
        only: Vec::new(),
    }
}

#[test]
fn substitution_replaces_the_first_placeholder() {
    assert_eq!(substitute_version("Release version {version}", "1.2.3"), "Release version 1.2.3");
    assert_eq!(substitute_version("{version} and {version}", "2.0.0"), "2.0.0 and {version}");
    assert_eq!(substitute_version("no placeholder here", "1.2.3"), "no placeholder here");
    assert_eq!(substitute_version("", "1.2.3"), "");
}

#[test]
fn tag_names_join_prefix_and_version() {
    assert_eq!(make_tag_name("v", "1.2.3"), "v1.2.3");
    assert_eq!(make_tag_name("", "1.2.3"), "1.2.3");
}

#[test]
fn remote_lists_split_into_lines() {
    assert_eq!(split_lines("origin\nbackup\n"), vec!["origin", "backup"]);
    assert_eq!(split_lines("origin"), vec!["origin"]);
    assert_eq!(split_lines("origin\r\nbackup"), vec!["origin", "backup"]);
    assert_eq!(split_lines(""), Vec::<String>::new());
}

#[test]
fn manifest_paths_are_recognised_by_file_name() {
    assert!(path_is_manifest("Cargo.toml"));
    assert!(path_is_manifest("./member/Cargo.toml"));
    assert!(path_is_manifest(".\\member\\Cargo.toml"));
    assert!(!path_is_manifest("member/NotCargo.toml"));
    assert!(!path_is_manifest("Cargo.toml.bak"));
    assert!(!path_is_manifest("src/lib.rs"));
}

#[test]
fn discovery_keeps_only_manifests_in_order() {
    let paths = vec![
        ".".to_string(),
        "./Cargo.toml".to_string(),
        "./src/lib.rs".to_string(),
        "./member/Cargo.toml".to_string(),
    ];
    assert_eq!(
        filter_manifest_paths(&paths),
        vec!["./Cargo.toml".to_string(), "./member/Cargo.toml".to_string()]
    );
}

const CONFIG: &str = r#"{
  "productName": "demo",
  "version": "0.1.0",
  "app": { "windows": [ { "title": "demo" } ] }
}"#;

#[test]
fn app_config_floats_survive_the_rewrite_exactly() {
    // float literals whose last bit a parser without correct rounding gets wrong
    let config = r#"{
  "version": "0.1.0",
  "scale": 51.248178375505404,
  "offsets": [-93.31137037688033, 2.0030397744267762e-253, 7.101215824554616e260]
}"#;
    let mut tool = ReleaseTool::new(cli("2.0.0"));
    let out = tool
        .update_tauri_config(Some(("tauri.conf.json".to_string(), config.to_string())))
        .unwrap();
    let (_, new_content) = out.unwrap();
    let mut original: serde_json::Value = serde_json::from_str(config).unwrap();
    let rewritten: serde_json::Value = serde_json::from_str(&new_content).unwrap();
    original["version"] = serde_json::Value::String("2.0.0".to_string());
    assert_eq!(original, rewritten);
    assert_eq!(rewritten["scale"].as_f64(), Some(51.248178375505404));
}

#[test]
fn app_config_version_is_rewritten_and_the_rest_kept() {
    let mut tool = ReleaseTool::new(cli("2.0.0"));
    let out = tool
        .update_tauri_config(Some(("tauri.conf.json".to_string(), CONFIG.to_string())))
        .unwrap();
    let (old, new_content) = out.unwrap();
    assert_eq!(old, "0.1.0");
    let mut original: serde_json::Value = serde_json::from_str(CONFIG).unwrap();
    let rewritten: serde_json::Value = serde_json::from_str(&new_content).unwrap();
    original["version"] = serde_json::Value::String("2.0.0".to_string());
    assert_eq!(original, rewritten);
    assert_eq!(tool.updated_files, vec!["tauri.conf.json".to_string()]);
}

#[test]
fn absent_app_config_is_no_error() {
    let mut tool = ReleaseTool::new(cli("2.0.0"));
    assert_eq!(tool.update_tauri_config(None), Ok(None));
    assert!(tool.updated_files.is_empty());
}

#[test]
fn app_config_without_version_is_refused() {
    let mut tool = ReleaseTool::new(cli("2.0.0"));
    let r = tool.update_tauri_config(Some((
        "tauri.conf.json".to_string(),
        "{\"productName\": \"demo\"}".to_string(),
    )));
    assert_eq!(r, Err(ReleaseError::ConfigParse));
    let r = tool.update_tauri_config(Some(("tauri.conf.json".to_string(), "{".to_string())));
    assert_eq!(r, Err(ReleaseError::ConfigParse));
}
