use jlo::error::AppError;
use jlo::manifest::Manifest;
use jlo::upgrade::{
    configured_workflow_mode, managed_workflow_paths, plan_upgrade, refresh_entity,
    upgrade_result, ManifestChange, UpdateOptions, UpgradeOptions, plan_update, update_result, EntityFile,
};
use jlo::version::{compare_versions, parse_version};

#[test]
fn update_test_compare_versions() {
    assert_eq!(compare_versions(&[0, 1, 0], &[0, 1, 0]), 0);
    assert_eq!(compare_versions(&[0, 2, 0], &[0, 1, 0]), 1);
    assert_eq!(compare_versions(&[0, 1, 0], &[0, 2, 0]), -1);
    assert_eq!(compare_versions(&[1, 0, 0], &[0, 9, 9]), 1);
    assert_eq!(compare_versions(&[0, 1], &[0, 1, 0]), 0);
}

#[test]
fn mod_test_compare_versions() {
    assert_eq!(compare_versions(&[0, 1, 0], &[0, 1, 0]), 0);
    assert_eq!(compare_versions(&[0, 2, 0], &[0, 1, 0]), 1);
    assert_eq!(compare_versions(&[0, 1, 0], &[0, 2, 0]), -1);
    assert_eq!(compare_versions(&[1, 0, 0], &[0, 9, 9]), 1);
    assert_eq!(compare_versions(&[0, 1], &[0, 1, 0]), 0);
}

#[test]
fn versions_ignore_prerelease_suffixes() {
    assert_eq!(parse_version("1.2.3-beta"), vec![1, 2, 3]);
    assert_eq!(parse_version("1.x.3"), vec![1, 3]);
}

fn skeleton() -> Vec<(String, String)> {
    vec![
        (".jlo/.jlo-version".to_string(), "0.0.0\n".to_string()),
        (".jlo/config.toml".to_string(), "[run]\n".to_string()),
        (".jlo/setup/tools.yml".to_string(), "tools: []\n".to_string()),
    ]
}

#[test]
fn test_upgrade_creates_missing_skeleton_files() {
    let plan = plan_upgrade(true, Some("0.1.0\n"), "0.2.0", &skeleton(), &vec![false, false, false]).unwrap();
    let paths: Vec<&str> = plan.to_create.iter().map(|(p, _)| p.as_str()).collect();
    assert_eq!(paths, vec![".jlo/config.toml", ".jlo/setup/tools.yml"]);
    assert_eq!(plan.version_sign, 1);
    assert_eq!(plan.previous_version, "0.1.0");
}

#[test]
fn test_upgrade_never_overwrites_existing_files() {
    let plan = plan_upgrade(true, Some("0.2.0"), "0.2.0", &skeleton(), &vec![true, true, false]).unwrap();
    let paths: Vec<&str> = plan.to_create.iter().map(|(p, _)| p.as_str()).collect();
    assert_eq!(paths, vec![".jlo/setup/tools.yml"]);
    assert_eq!(plan.version_sign, 0);
}

#[test]
fn upgrade_refusals() {
    assert!(matches!(plan_upgrade(false, Some("0.1.0"), "0.2.0", &skeleton(), &vec![true; 3]), Err(AppError::Validation(_))));
    assert!(matches!(plan_upgrade(true, None, "0.2.0", &skeleton(), &vec![true; 3]), Err(AppError::WorkspaceIntegrity(_))));
    match plan_upgrade(true, Some("0.3.0"), "0.2.0", &skeleton(), &vec![true; 3]) {
        Err(AppError::WorkspaceVersionMismatch { workspace, binary }) => {
            assert_eq!(workspace, "0.3.0");
            assert_eq!(binary, "0.2.0");
        }
        other => panic!("unexpected: {:?}", other),
    }
}

#[test]
fn upgrade_result_lists_created_files() {
    let plan = plan_upgrade(true, Some("0.1.0"), "0.2.0", &skeleton(), &vec![false, true, false]).unwrap();
    let result = upgrade_result(plan, true, false);
    assert_eq!(result.created, vec![".jlo/setup/tools.yml"]);
    assert!(result.updated.is_empty());
    assert!(result.workflow_refreshed);
    assert_eq!(result.previous_version, "0.1.0");
}

#[test]
fn workflow_scaffold_detection() {
    assert_eq!(managed_workflow_paths().len(), 6);
    assert!(!configured_workflow_mode(&vec![false; 6]));
    assert!(configured_workflow_mode(&vec![false, false, true, false, false, false]));
    assert!(!UpgradeOptions::default().prompt_preview);
    assert!(!UpdateOptions::default().prompt_preview);
}

#[test]
fn entity_refresh_decisions() {
    assert_eq!(refresh_entity(true, "old", "new", "h-old", "h-new", Some("h-old")), (true, ManifestChange::Record("h-new".to_string())));
    assert_eq!(refresh_entity(true, "new", "new", "h-new", "h-new", Some("h-new")), (false, ManifestChange::Keep));
    assert_eq!(refresh_entity(true, "mine", "new", "h-mine", "h-new", Some("h-old")), (false, ManifestChange::Remove));
    assert_eq!(refresh_entity(true, "new", "new", "h-new", "h-new", None), (false, ManifestChange::Record("h-new".to_string())));
    assert_eq!(refresh_entity(true, "mine", "new", "h-mine", "h-new", None), (false, ManifestChange::Keep));
    assert_eq!(refresh_entity(false, "", "new", "", "h-new", Some("h")), (false, ManifestChange::Remove));
}

fn entity(path: &str, exists: bool, current: &str, default: &str) -> EntityFile {
    EntityFile {
        path: path.to_string(),
        default_content: default.to_string(),
        default_hash: format!("h:{}", default),
        exists,
        current_content: current.to_string(),
        current_hash: format!("h:{}", current),
    }
}

fn control_files() -> Vec<(String, String)> {
    vec![
        (".jlo/config.toml".to_string(), "[run]\n".to_string()),
        (".jlo/setup/tools.yml".to_string(), "tools: []".to_string()),
    ]
}

#[test]
fn test_update_creates_missing_intent_files() {
    let plan = plan_update(true, Some("0.0.0"), "0.1.0", &control_files(), &vec![false, false], &Vec::new(), None).unwrap();
    let created: Vec<&str> = plan.base.to_create.iter().map(|(p, _)| p.as_str()).collect();
    assert!(created.contains(&".jlo/config.toml"));
    assert!(created.contains(&".jlo/setup/tools.yml"));
    assert_eq!(plan.base.to_create[0].1, "[run]\n");
    assert_eq!(plan.warnings.len(), 1);
}

#[test]
fn test_update_never_overwrites_existing_files() {
    let plan = plan_update(true, Some("0.0.0"), "0.1.0", &control_files(), &vec![true, false], &Vec::new(), None).unwrap();
    let created: Vec<&str> = plan.base.to_create.iter().map(|(p, _)| p.as_str()).collect();
    assert!(!created.contains(&".jlo/config.toml"));
}

#[test]
fn test_update_advances_version_pin() {
    let plan = plan_update(true, Some("0.0.0"), "0.1.0", &Vec::new(), &Vec::new(), &Vec::new(), None).unwrap();
    assert_eq!(plan.base.previous_version, "0.0.0");
    assert_eq!(plan.base.version_sign, 1);
}

#[test]
fn test_update_succeeds_when_current_version() {
    let plan = plan_update(true, Some("0.1.0"), "0.1.0", &Vec::new(), &Vec::new(), &Vec::new(), None).unwrap();
    assert!(plan.base.to_create.is_empty());
    assert_eq!(plan.base.previous_version, "0.1.0");
    assert_eq!(plan.base.version_sign, 0);
}

#[test]
fn test_update_does_not_recreate_deleted_entities() {
    let entities = vec![
        entity(".jlo/roles/observers/default/role.yml", false, "", "role: default"),
        entity(".jlo/workstreams/generic/scheduled.toml", false, "", "enabled = true"),
    ];
    let plan = plan_update(true, Some("0.0.0"), "0.1.0", &control_files(), &vec![false, false], &entities, None).unwrap();
    assert!(plan.to_update.is_empty());
    assert!(!plan.manifest_changed);
}

#[test]
fn update_refreshes_only_unmodified_managed_files() {
    let pairs = vec![
        (".jlo/a.yml".to_string(), "h:old".to_string()),
        (".jlo/b.yml".to_string(), "h:old".to_string()),
        (".jlo/gone.yml".to_string(), "h:x".to_string()),
    ];
    let manifest = Manifest::from_entries(&pairs);
    let entities = vec![
        entity(".jlo/a.yml", true, "old", "new"),
        entity(".jlo/b.yml", true, "mine", "new"),
        entity(".jlo/c.yml", true, "new", "new"),
        entity(".jlo/gone.yml", false, "", "new"),
    ];
    let plan = plan_update(true, Some("0.0.0"), "0.1.0", &Vec::new(), &Vec::new(), &entities, Some(manifest)).unwrap();
    assert_eq!(plan.to_update, vec![(".jlo/a.yml".to_string(), "new".to_string())]);
    assert!(plan.manifest_changed);
    assert!(plan.warnings.is_empty());
    assert_eq!(plan.manifest.get(".jlo/a.yml"), Some("h:new"));
    assert_eq!(plan.manifest.get(".jlo/b.yml"), None);
    assert_eq!(plan.manifest.get(".jlo/c.yml"), Some("h:new"));
    assert_eq!(plan.manifest.get(".jlo/gone.yml"), None);
}

#[test]
fn manifest_operations() {
    let mut m = Manifest::new();
    m.insert("a", "1");
    m.insert("b", "2");
    m.insert("a", "3");
    assert_eq!(m.get("a"), Some("3"));
    assert_eq!(m.entries().len(), 2);
    assert!(m.remove("a"));
    assert!(!m.remove("a"));
    assert_eq!(m.get("a"), None);
    let from = Manifest::from_entries(&vec![("x".to_string(), "1".to_string()), ("x".to_string(), "2".to_string())]);
    assert_eq!(from.entries(), vec![("x".to_string(), "2".to_string())]);
}

#[test]
fn update_result_lists_created_and_updated_files() {
    let entities = vec![entity(".jlo/a.yml", true, "old", "new")];
    let manifest = Manifest::from_entries(&vec![(".jlo/a.yml".to_string(), "h:old".to_string())]);
    let plan = plan_update(true, Some("0.0.0"), "0.1.0", &control_files(), &vec![true, false], &entities, Some(manifest)).unwrap();
    let result = update_result(plan, false, true);
    assert_eq!(result.created, vec![".jlo/setup/tools.yml"]);
    assert_eq!(result.updated, vec![".jlo/a.yml"]);
    assert!(result.prompt_preview);
    assert_eq!(result.previous_version, "0.0.0");
}

#[test]
fn test_upgrade_advances_version_pin() {
    let plan = plan_upgrade(true, Some("0.0.0\n"), "0.1.0", &Vec::new(), &Vec::new()).unwrap();
    assert_eq!(plan.version_sign, 1);
    let result = upgrade_result(plan, false, false);
    assert_eq!(result.previous_version, "0.0.0");
}

#[test]
fn test_upgrade_succeeds_when_current_version() {
    let plan = plan_upgrade(true, Some("0.1.0"), "0.1.0", &Vec::new(), &Vec::new()).unwrap();
    assert_eq!(plan.version_sign, 0);
    let result = upgrade_result(plan, false, false);
    assert!(result.created.is_empty());
    assert_eq!(result.previous_version, "0.1.0");
}

#[test]
fn upgrade_fails_when_workflow_exists_but_runner_mode_missing() {
    let config = "[run]\njlo_target_branch = \"main\"\njules_worker_branch = \"jules\"\n\n[workflow]\ncron = [\"0 20 * * *\"]\nwait_minutes_default = 30\n";
    let plan = plan_upgrade(true, Some("0.0.0"), "0.1.0", &Vec::new(), &Vec::new()).unwrap();
    assert_eq!(plan.version_sign, 1);
    let present = vec![true, false, false, false, false, false];
    let err = jlo::upgrade::workflow_refresh_mode(&present, Some(config)).unwrap_err();
    assert!(err.message().contains("workflow.runner_mode"));
}

#[test]
fn workflow_refresh_mode_reads_runner_mode() {
    let present = vec![false; 6];
    assert_eq!(jlo::upgrade::workflow_refresh_mode(&present, None).unwrap(), None);
    let present = vec![false, true, false, false, false, false];
    let config = "[workflow]\nrunner_mode = \"remote\"\n";
    assert_eq!(jlo::upgrade::workflow_refresh_mode(&present, Some(config)).unwrap(), Some("remote".to_string()));
}

#[test]
fn update_refuses_newer_workspace_with_both_versions() {
    match plan_update(true, Some("0.9.0\n"), "0.1.0", &Vec::new(), &Vec::new(), &Vec::new(), None) {
        Err(AppError::WorkspaceVersionMismatch { workspace, binary }) => {
            assert_eq!(workspace, "0.9.0");
            assert_eq!(binary, "0.1.0");
        }
        other => panic!("unexpected: {:?}", other.err()),
    }
}

#[test]
fn update_preview_lists_what_the_update_does() {
    let plan = || plan_update(true, Some("0.0.0"), "0.1.0", &control_files(), &vec![false, true], &Vec::new(), None).unwrap();
    let preview = update_result(plan(), false, true);
    let applied = update_result(plan(), false, false);
    assert!(preview.prompt_preview && !applied.prompt_preview);
    assert_eq!(preview.created, applied.created);
    assert_eq!(preview.updated, applied.updated);
    assert_eq!(preview.created, vec![".jlo/config.toml"]);
}
