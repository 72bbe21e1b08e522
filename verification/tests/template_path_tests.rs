use jlo::error::AppError;
use jlo::layer::Layer;
use jlo::order::{sort_strings, str_le};
use jlo::path::{path_file_name, path_parent_name, path_segments};
use jlo::requirement_path::{starts_with_path, validate_issue_path, validate_requirement_path};
use jlo::single_role::{execute as execute_single_role, relative_path, SingleRolePlan};
use jlo::config::ExecutionConfig;
use jlo::template::{
    check_template_layer, execute, resolve_workstream, validate_workstream_name, TemplateChoice,
    TemplateOutcome, TemplateRequest, WorkstreamResolution,
};
use jlo::text::{join_strings, replace_all};

#[test]
fn display_paths() {
    let role = TemplateOutcome::Role { layer: Layer::Observers, role: "qa".to_string() };
    assert_eq!(role.display_path(), ".jules/roles/observers/qa");
    let ws = TemplateOutcome::Workstream { name: "alpha".to_string() };
    assert_eq!(ws.display_path(), ".jules/workstreams/alpha");
}

#[test]
fn template_choices() {
    let labels: Vec<&str> = TemplateChoice::all().into_iter().map(|c| c.label()).collect();
    assert_eq!(labels, vec!["Workstream", "Observer Role", "Decider Role"]);
    assert_eq!(TemplateChoice::ObserverRole.layer(), Some(Layer::Observers));
    assert_eq!(TemplateChoice::Workstream.layer(), None);
}

#[test]
fn workstream_names() {
    assert!(validate_workstream_name("alpha").is_ok());
    assert!(matches!(validate_workstream_name("  "), Err(AppError::Validation(_))));
    assert!(matches!(validate_workstream_name("a/b"), Err(AppError::Validation(_))));
    assert!(matches!(validate_workstream_name("a\\b"), Err(AppError::Validation(_))));
}

#[test]
fn template_layers_and_workstreams() {
    assert!(matches!(check_template_layer(Layer::Planner), Err(AppError::SingleRoleLayerTemplate(d)) if d == "planner"));
    assert!(check_template_layer(Layer::Observers).is_ok());
    assert!(matches!(resolve_workstream(Layer::Innovators, None, false, false), Ok(WorkstreamResolution::NotNeeded)));
    assert!(matches!(resolve_workstream(Layer::Observers, Some("a"), true, false), Ok(WorkstreamResolution::Use(w)) if w == "a"));
    assert!(matches!(resolve_workstream(Layer::Observers, Some("a"), false, false), Err(AppError::Validation(_))));
    assert!(matches!(resolve_workstream(Layer::Decider, None, false, true), Ok(WorkstreamResolution::Ask)));
    assert!(matches!(resolve_workstream(Layer::Decider, None, false, false), Err(AppError::MissingArgument(_))));
}

#[test]
fn role_template_scaffold() {
    let existing = vec!["qa".to_string()];
    let workstreams = vec!["generic".to_string(), "alpha".to_string()];
    let request = |role: &'static str, ws: Option<&'static str>| TemplateRequest {
        workspace_exists: true,
        layer: Layer::Observers,
        role_name: role,
        existing_roles: &existing,
        workstream_arg: ws,
        workstreams: &workstreams,
        prompt_template: "role: ROLE_NAME\nworkstream: generic\n",
    };
    let made = execute(&request("taxonomy", Some("alpha"))).unwrap();
    assert_eq!(made.prompt_yaml, "role: taxonomy\nworkstream: alpha\n");
    assert_eq!(made.workstream.as_deref(), Some("alpha"));
    assert!(made.has_notes);
    let default_ws = execute(&request("taxonomy", None)).unwrap();
    assert_eq!(default_ws.prompt_yaml, "role: taxonomy\nworkstream: generic\n");
    assert!(matches!(execute(&request("qa", None)), Err(AppError::RoleExists { .. })));
    assert!(matches!(execute(&request("x", Some("beta"))), Err(AppError::ConfigError(_))));
    let mut missing = request("x", None);
    missing.workspace_exists = false;
    assert!(matches!(execute(&missing), Err(AppError::WorkspaceNotFound)));
}

#[test]
fn replace_all_scans_left_to_right() {
    assert_eq!(replace_all("aaa", "aa", "b"), "ba");
    assert_eq!(replace_all("x_y_z", "_", "-"), "x-y-z");
    assert_eq!(replace_all("none", "q", "r"), "none");
    assert_eq!(join_strings(&vec!["a".to_string(), "b".to_string()], ", "), "a, b");
}

#[test]
fn strings_sort_lexicographically() {
    let v = vec!["b".to_string(), "a".to_string(), "ab".to_string(), "a".to_string()];
    assert_eq!(sort_strings(&v), vec!["a", "a", "ab", "b"]);
    assert!(str_le("a", "ab"));
    assert!(!str_le("b", "ab"));
}

#[test]
fn path_components() {
    assert_eq!(path_segments("/a/./b//c/"), vec!["a", "b", "c"]);
    assert_eq!(path_file_name("dir/file.yml"), Some("file.yml"));
    assert_eq!(path_file_name("dir/.."), None);
    assert_eq!(path_parent_name("a/bugs/x.yml"), Some("bugs"));
    assert!(starts_with_path("/r/.jules/exchange/requirements/a.yml", "/r/.jules/exchange"));
    assert!(!starts_with_path("/r/.jules/exchange2/a.yml", "/r/.jules/exchange"));
}

#[test]
fn requirement_paths_must_lie_in_the_exchange() {
    let ok = validate_requirement_path("r.yml", true, "/r/.jules/exchange/requirements/r.yml", Some("/r/.jules/exchange")).unwrap();
    assert_eq!(ok.requirement_path_str, "r.yml");
    assert!(matches!(validate_requirement_path("r.yml", false, "", None), Err(AppError::RequirementFileNotFound(p)) if p == "r.yml"));
    assert!(matches!(validate_requirement_path("r.yml", true, "/r/x.yml", None), Err(AppError::ExchangeDirectoryNotFound)));
    assert!(matches!(validate_requirement_path("r.yml", true, "/r/other/requirements/r.yml", Some("/r/.jules/exchange")), Err(AppError::Validation(_))));
    assert!(matches!(validate_requirement_path("r.yml", true, "/r/.jules/exchange/issues/r.yml", Some("/r/.jules/exchange")), Err(AppError::Validation(_))));
    assert!(validate_issue_path("i.yml", true, "/r/.jules/exchange/issues/bugs/i.yml", Some("/r/.jules/exchange")).is_ok());
}

#[test]
fn single_role_runs_dispatch_or_start_sessions() {
    let run = ExecutionConfig { default_branch: "main".to_string(), jules_branch: "jules".to_string(), parallel: true, max_parallel: 3 };
    let canonical = "/r/.jules/exchange/issues/bugs/i.yml";
    match execute_single_role(Layer::Planner, "i.yml", true, canonical, Some("/r/.jules/exchange"), "/r", false, None, false, &run).unwrap() {
        SingleRolePlan::LocalDispatch { workflow, issue_file, prompt_preview } => {
            assert_eq!(workflow, "jules-run-planner.yml");
            assert_eq!(issue_file, ".jules/exchange/issues/bugs/i.yml");
            assert!(!prompt_preview);
        }
        other => panic!("unexpected: {:?}", other),
    }
    match execute_single_role(Layer::Implementer, "i.yml", true, canonical, Some("/r/.jules/exchange"), "/r", true, None, true, &run).unwrap() {
        SingleRolePlan::Session { starting_branch, prompt_preview } => {
            assert_eq!(starting_branch, "main");
            assert!(prompt_preview);
        }
        other => panic!("unexpected: {:?}", other),
    }
    assert!(matches!(execute_single_role(Layer::Planner, "i.yml", false, "", None, "/r", false, None, true, &run), Err(AppError::IssueFileNotFound(_))));
    assert_eq!(relative_path("/a/b/c", "/x"), "/a/b/c");
}

#[test]
fn unknown_layer_name_is_invalid_layer() {
    assert_eq!(jlo::template::resolve_layer("observers").unwrap(), Layer::Observers);
    match jlo::template::resolve_layer("unknown") {
        Err(AppError::InvalidLayer(name)) => assert_eq!(name, "unknown"),
        other => panic!("unexpected: {:?}", other),
    }
}
