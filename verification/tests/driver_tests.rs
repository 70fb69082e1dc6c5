use cargo_git_release::actions::VcsAction;
use cargo_git_release::tool::{push_run_succeeded, root_manifest_required, tag_exists_in,
    tauri_config_paths};
use cargo_git_release::{Cli, ReleaseTool, ReleaseError};

fn cli(version: &str) -> Cli {
    Cli {
        version: version.to_string(),
        re_publish: false,
        force: false,
        message: "Release version {version}".to_string(),
        tag_prefix: "v".to_string(),
        dry_run: false,
        exclude: Vec::new(),
        only: Vec::new(),
    }
}

fn remotes(names: &[&str]) -> Vec<String> {
    names.iter().map(|n| n.to_string()).collect()
}

#[test]
fn existing_tag_without_republish_is_refused() {
    let tool = ReleaseTool::new(cli("1.2.3"));
    let r = tool.handle_tag_steps(true, &remotes(&["origin", "backup"]));
    assert_eq!(r, Err(ReleaseError::TagAlreadyExists));
}

#[test]
fn republish_deletes_then_recreates_the_tag() {
    let mut args = cli("1.2.3");
    args.re_publish = true;
    let tool = ReleaseTool::new(args);
    let acts = tool.handle_tag_steps(true, &remotes(&["origin", "backup"])).unwrap();
    assert_eq!(
        acts,
        vec![
            VcsAction::DeleteLocalTag { tag: "v1.2.3".to_string() },
            VcsAction::DeleteRemoteTag {
                remote: "origin".to_string(),
                tag: "v1.2.3".to_string(),
            },
            VcsAction::DeleteRemoteTag {
                remote: "backup".to_string(),
                tag: "v1.2.3".to_string(),
            },
            VcsAction::CreateTag {
                tag: "v1.2.3".to_string(),
                message: "Version 1.2.3".to_string(),
            },
        ]
    );
}

#[test]
fn fresh_tag_is_only_created() {
    let tool = ReleaseTool::new(cli("1.2.3"));
    let acts = tool.handle_tag_steps(false, &remotes(&["origin"])).unwrap();
    assert_eq!(
        acts,
        vec![VcsAction::CreateTag {
            tag: "v1.2.3".to_string(),
            message: "Version 1.2.3".to_string(),
        }]
    );
}

#[test]
fn dry_run_plans_no_vcs_mutation() {
    let mut args = cli("1.2.3");
    args.dry_run = true;
    let tool = ReleaseTool::new(args);
    let acts = tool.publish_steps(true, &remotes(&["origin"])).unwrap();
    assert!(acts.is_empty());
}

#[test]
fn full_plan_commits_tags_and_pushes_in_order() {
    let tool = ReleaseTool::new(cli("1.2.3"));
    let acts = tool.publish_steps(false, &remotes(&["origin", "backup"])).unwrap();
    assert_eq!(
        acts,
        vec![
            VcsAction::AddAll,
            VcsAction::Commit { message: "Release version 1.2.3".to_string() },
            VcsAction::CreateTag {
                tag: "v1.2.3".to_string(),
                message: "Version 1.2.3".to_string(),
            },
            VcsAction::PushBranch { remote: "origin".to_string() },
            VcsAction::PushTags { remote: "origin".to_string() },
            VcsAction::PushBranch { remote: "backup".to_string() },
            VcsAction::PushTags { remote: "backup".to_string() },
        ]
    );
}

#[test]
fn custom_prefix_and_template_reach_the_plan() {
    let mut args = cli("1.2.3");
    args.tag_prefix = "release-".to_string();
    args.message = "bump to {version} now".to_string();
    let tool = ReleaseTool::new(args);
    let acts = tool.publish_steps(false, &remotes(&[])).unwrap();
    assert_eq!(
        acts,
        vec![
            VcsAction::AddAll,
            VcsAction::Commit { message: "bump to 1.2.3 now".to_string() },
            VcsAction::CreateTag {
                tag: "release-1.2.3".to_string(),
                message: "Version 1.2.3".to_string(),
            },
        ]
    );
}

#[test]
fn tag_existence_reads_the_query_output() {
    assert!(tag_exists_in(&b"v1.2.3\n".to_vec()));
    assert!(!tag_exists_in(&Vec::new()));
}

#[test]
fn missing_root_manifest_is_fatal() {
    assert_eq!(root_manifest_required(true), Ok(()));
    assert_eq!(root_manifest_required(false), Err(ReleaseError::NoManifestFound));
}

#[test]
fn config_candidates_are_tried_in_order() {
    let paths = tauri_config_paths();
    assert_eq!(
        paths,
        vec!["tauri.conf.json".to_string(), "src-tauri/tauri.conf.json".to_string()]
    );
}

#[test]
fn any_failed_push_fails_the_run() {
    assert!(push_run_succeeded(&vec![]));
    assert!(push_run_succeeded(&vec![true, true, true, true]));
    assert!(!push_run_succeeded(&vec![true, false, true, true]));
    assert!(!push_run_succeeded(&vec![false]));
}

#[test]
fn error_messages_name_the_failure() {
    assert_eq!(
        ReleaseError::TagAlreadyExists.message(),
        "the tag already exists; use --re-publish to publish it again"
    );
    assert_eq!(ReleaseError::NoManifestFound.message(), "no Cargo.toml found");
}
