use jlo::error::AppError;
use jlo::layer::Layer;
use jlo::schedule::{
    export, load_schedule, role_yml_path_of, select_roles, RoleSelectionInput,
    ScheduleExportFormat, ScheduleExportOptions, ScheduleExportScope,
};

const ALPHA: &str = r#"
version = 1
enabled = true
[observers]
roles = [
  { name = "taxonomy", enabled = true },
]
[deciders]
roles = []
"#;

#[test]
fn export_workstreams_returns_enabled_only() {
    let beta = r#"
version = 1
enabled = false
[observers]
roles = [
  { name = "taxonomy", enabled = true },
]
[deciders]
roles = []
"#;
    let schedules = vec![
        ("alpha".to_string(), load_schedule(ALPHA).unwrap()),
        ("beta".to_string(), load_schedule(beta).unwrap()),
    ];
    let output = export(
        &ScheduleExportOptions {
            scope: ScheduleExportScope::Workstreams,
            layer: None,
            workstream: None,
            format: ScheduleExportFormat::GithubMatrix,
        },
        &schedules,
    )
    .unwrap();

    assert_eq!(output.entries.len(), 1);
    assert_eq!(output.entries[0].workstream, "alpha");
    assert!(output.entries[0].role.is_none());
}

#[test]
fn export_roles_returns_layer_roles() {
    let alpha = r#"
version = 1
enabled = true
[observers]
roles = [
  { name = "taxonomy", enabled = true },
  { name = "qa", enabled = true },
]
[deciders]
roles = [
  { name = "triage_generic", enabled = true },
]
"#;
    let schedules = vec![("alpha".to_string(), load_schedule(alpha).unwrap())];
    let output = export(
        &ScheduleExportOptions {
            scope: ScheduleExportScope::Roles,
            layer: Some(Layer::Observers),
            workstream: Some("alpha".to_string()),
            format: ScheduleExportFormat::GithubMatrix,
        },
        &schedules,
    )
    .unwrap();

    let roles: Vec<String> = output.entries.iter().map(|entry| entry.role.clone().unwrap()).collect();
    assert_eq!(roles, vec!["taxonomy", "qa"]);
}

#[test]
fn export_roles_needs_layer_and_workstream() {
    let schedules = vec![("alpha".to_string(), load_schedule(ALPHA).unwrap())];
    let mut options = ScheduleExportOptions {
        scope: ScheduleExportScope::Roles,
        layer: None,
        workstream: Some("alpha".to_string()),
        format: ScheduleExportFormat::GithubMatrix,
    };
    assert!(matches!(export(&options, &schedules), Err(AppError::MissingArgument(_))));
    options.layer = Some(Layer::Planner);
    assert!(matches!(export(&options, &schedules), Err(AppError::Validation(_))));
    options.layer = Some(Layer::Observers);
    options.workstream = None;
    assert!(matches!(export(&options, &schedules), Err(AppError::MissingArgument(_))));
}

#[test]
fn disabled_roles_are_left_out() {
    let s = load_schedule(
        "version = 1\nenabled = true\n[observers]\nroles = [ { name = \"a\", enabled = false }, { name = \"b\", enabled = true } ]\n[deciders]\nroles = []\n",
    )
    .unwrap();
    assert_eq!(s.observers.enabled_roles(), vec!["b"]);
    assert!(s.innovators.is_none());
}

#[test]
fn malformed_schedules_are_refused() {
    assert!(matches!(load_schedule("enabled = true\n"), Err(AppError::ParseError { .. })));
    assert!(matches!(load_schedule("version = 1\n[observers\n"), Err(AppError::ParseError { .. })));
}

fn names(v: &[&str]) -> Vec<String> {
    v.iter().map(|s| s.to_string()).collect()
}

#[test]
fn scheduled_roles_use_schedule() {
    let schedule = load_schedule(ALPHA).unwrap();
    let existing = names(&["taxonomy"]);
    let roles = select_roles(RoleSelectionInput {
        layer: Layer::Observers,
        workstream: "alpha",
        scheduled: true,
        requested_roles: None,
        workstream_exists: true,
        schedule: Some(&schedule),
        existing_roles: &existing,
    })
    .unwrap();

    assert_eq!(roles[0].as_str(), "taxonomy");
}

#[test]
fn manual_roles_require_role_exists() {
    let existing = names(&["taxonomy"]);
    let requested = names(&["taxonomy"]);
    let roles = select_roles(RoleSelectionInput {
        layer: Layer::Observers,
        workstream: "alpha",
        scheduled: false,
        requested_roles: Some(&requested),
        workstream_exists: true,
        schedule: None,
        existing_roles: &existing,
    })
    .unwrap();

    assert_eq!(roles[0].as_str(), "taxonomy");
}

#[test]
fn missing_role_fails() {
    let existing: Vec<String> = Vec::new();
    let requested = names(&["nonexistent"]);
    let err = select_roles(RoleSelectionInput {
        layer: Layer::Observers,
        workstream: "alpha",
        scheduled: false,
        requested_roles: Some(&requested),
        workstream_exists: true,
        schedule: None,
        existing_roles: &existing,
    })
    .unwrap_err();

    match err {
        AppError::RoleNotFound(msg) => assert!(msg.contains("not found")),
        other => panic!("unexpected: {:?}", other),
    }
}

#[test]
fn scheduled_deciders_can_be_empty() {
    let schedule = load_schedule(ALPHA).unwrap();
    let existing: Vec<String> = Vec::new();
    let roles = select_roles(RoleSelectionInput {
        layer: Layer::Decider,
        workstream: "alpha",
        scheduled: true,
        requested_roles: None,
        workstream_exists: true,
        schedule: Some(&schedule),
        existing_roles: &existing,
    })
    .unwrap();

    assert!(roles.is_empty());
}

fn manual<'a>(requested: Option<&'a Vec<String>>, exists: bool, existing: &'a Vec<String>) -> RoleSelectionInput<'a> {
    RoleSelectionInput {
        layer: Layer::Observers,
        workstream: "w",
        scheduled: false,
        requested_roles: requested,
        workstream_exists: exists,
        schedule: None,
        existing_roles: existing,
    }
}

#[test]
fn role_selection_refusals() {
    let existing = names(&["a", "b"]);
    let dup = names(&["a", "a"]);
    assert!(matches!(select_roles(manual(Some(&dup), false, &existing)), Err(AppError::Validation(_))));
    match select_roles(manual(Some(&dup), true, &existing)) {
        Err(AppError::Validation(msg)) => assert!(msg.contains("Duplicate role 'a'")),
        other => panic!("unexpected: {:?}", other),
    }
    assert!(matches!(select_roles(manual(None, true, &existing)), Err(AppError::MissingArgument(_))));
    let empty: Vec<String> = Vec::new();
    assert!(matches!(select_roles(manual(Some(&empty), true, &existing)), Err(AppError::MissingArgument(_))));
    let bad = names(&["../a"]);
    assert!(matches!(select_roles(manual(Some(&bad), true, &existing)), Err(AppError::Validation(_))));
    let disabled = load_schedule("version = 1\nenabled = false\n[observers]\nroles = []\n[deciders]\nroles = []\n").unwrap();
    let scheduled = RoleSelectionInput {
        layer: Layer::Observers,
        workstream: "w",
        scheduled: true,
        requested_roles: None,
        workstream_exists: true,
        schedule: Some(&disabled),
        existing_roles: &existing,
    };
    assert!(matches!(select_roles(scheduled), Err(AppError::Validation(_))));
}

#[test]
fn role_definition_path() {
    assert_eq!(role_yml_path_of(Layer::Observers, "qa"), ".jules/roles/observers/roles/qa/role.yml");
}

#[test]
fn innovator_personas_come_from_the_schedule() {
    let with = load_schedule(
        "version = 1\nenabled = true\n[observers]\nroles = []\n[deciders]\nroles = []\n[innovators]\nroles = [ { name = \"alice\", enabled = true }, { name = \"bob\", enabled = false } ]\n",
    )
    .unwrap();
    assert_eq!(jlo::schedule::resolve_innovator_personas(Some(&with)), vec!["alice"]);
    let without = load_schedule(ALPHA).unwrap();
    assert!(jlo::schedule::resolve_innovator_personas(Some(&without)).is_empty());
    assert!(jlo::schedule::resolve_innovator_personas(None).is_empty());
}

#[test]
fn multi_role_arguments() {
    use_multi_role_checks();
}

fn use_multi_role_checks() {
    assert!(matches!(jlo::schedule::check_multi_role_args(None, true, false), Err(AppError::MissingArgument(_))));
    assert!(matches!(jlo::schedule::check_multi_role_args(Some("w"), true, true), Err(AppError::Validation(_))));
    assert!(matches!(jlo::schedule::check_multi_role_args(Some("w"), false, false), Err(AppError::Validation(_))));
    assert_eq!(jlo::schedule::check_multi_role_args(Some("w"), true, false).unwrap(), "w");
}
