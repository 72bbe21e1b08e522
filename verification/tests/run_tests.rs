use jlo::config::{AgentConfig, RunConfig};
use jlo::error::AppError;
use jlo::layer::Layer;
use jlo::run::{assemble_prompt, plan_run, resolve_roles, starting_branch, RunOptions, RunPlan};
use jlo::strategy::{
    cleanup_push, cleanup_requirement, execute, extract_requirement_label, get_layer_strategy,
    implementer_prompt, innovator_task_file, planner_prompt, resolve_implementer_task,
    resolve_innovator_task, resolve_starting_branch, validate_run_target, LayerStrategy,
    RunRuntimeOptions, RunTarget,
};

#[test]
fn resolve_roles_returns_all_when_none_requested() {
    let config = RunConfig {
        agents: AgentConfig {
            observers: vec!["taxonomy".to_string(), "qa".to_string()],
            ..Default::default()
        },
        ..Default::default()
    };

    let roles = resolve_roles(&config, Layer::Observers, None).unwrap();
    assert_eq!(roles, vec!["taxonomy", "qa"]);
}

#[test]
fn resolve_roles_validates_requested_roles() {
    let config = RunConfig {
        agents: AgentConfig { observers: vec!["taxonomy".to_string()], ..Default::default() },
        ..Default::default()
    };

    let requested = vec!["nonexistent".to_string()];
    let result = resolve_roles(&config, Layer::Observers, Some(&requested));
    assert!(matches!(result, Err(AppError::RoleNotInConfig { .. })));
}

#[test]
fn resolve_roles_names_the_first_unconfigured_role() {
    let config = RunConfig {
        agents: AgentConfig { observers: vec!["qa".to_string()], ..Default::default() },
        ..Default::default()
    };
    let requested = vec!["qa".to_string(), "x".to_string(), "y".to_string()];
    match resolve_roles(&config, Layer::Observers, Some(&requested)) {
        Err(AppError::RoleNotInConfig { role, layer }) => {
            assert_eq!(role, "x");
            assert_eq!(layer, "observers");
        }
        other => panic!("unexpected: {:?}", other),
    }
    let ok = vec!["qa".to_string()];
    assert_eq!(resolve_roles(&config, Layer::Observers, Some(&ok)).unwrap(), vec!["qa"]);
}

fn options(layer: Layer, branch: Option<&str>, dry_run: bool) -> RunOptions {
    RunOptions { layer, roles: None, dry_run, mock: false, branch: branch.map(|b| b.to_string()) }
}

#[test]
fn starting_branch_follows_layer_and_override() {
    let config = RunConfig::default();
    assert_eq!(starting_branch(&options(Layer::Implementer, None, false), &config), "main");
    assert_eq!(starting_branch(&options(Layer::Observers, None, false), &config), "jules");
    assert_eq!(starting_branch(&options(Layer::Observers, Some("dev"), false), &config), "dev");
}

#[test]
fn plan_run_covers_empty_dry_and_session_runs() {
    let empty = RunConfig::default();
    assert!(matches!(
        plan_run(&empty, &options(Layer::Decider, None, true)),
        Ok(RunPlan::NothingConfigured { dry_run: true })
    ));
    let config = RunConfig {
        agents: AgentConfig { deciders: vec!["triage".to_string()], ..Default::default() },
        ..Default::default()
    };
    match plan_run(&config, &options(Layer::Decider, None, true)).unwrap() {
        RunPlan::DryRun { roles, starting_branch } => {
            assert_eq!(roles, vec!["triage"]);
            assert_eq!(starting_branch, "jules");
        }
        other => panic!("unexpected: {:?}", other),
    }
    match plan_run(&config, &options(Layer::Decider, Some("b"), false)).unwrap() {
        RunPlan::Sessions { roles, starting_branch, mock } => {
            assert_eq!(roles, vec!["triage"]);
            assert_eq!(starting_branch, "b");
            assert!(!mock);
        }
        other => panic!("unexpected: {:?}", other),
    }
}

#[test]
fn assemble_prompt_joins_parts_in_order() {
    let notes = vec![
        ("a.md".to_string(), "first".to_string()),
        ("b.md".to_string(), "second".to_string()),
    ];
    let prompt = assemble_prompt("P", Some("C"), Some("R"), &notes);
    assert_eq!(
        prompt,
        "P\n\n---\n# Layer Contracts\nC\n\n---\n# Role Configuration\nR\n\n---\n# Notes\n## a.md\nfirst\n\n## b.md\nsecond"
    );
    assert_eq!(assemble_prompt("P", None, None, &Vec::new()), "P");
}

fn target(layer: Layer) -> RunTarget {
    RunTarget { layer, role: None, requirement: None, task: None }
}

#[test]
fn wrong_branch_fails_fast_for_worker_branch_layer() {
    let runtime = RunRuntimeOptions::default();
    let err = execute(&target(Layer::Decider), &runtime, "main", "jules", Some("main")).unwrap_err();
    match err {
        AppError::Validation(msg) => {
            assert!(msg.contains("decider"), "error should name the layer: {}", msg);
            assert!(msg.contains("jules"), "error should name expected branch: {}", msg);
            assert!(msg.contains("main"), "error should name current branch: {}", msg);
        }
        other => panic!("unexpected: {:?}", other),
    }
}

#[test]
fn wrong_branch_fails_fast_for_target_branch_layer() {
    let runtime = RunRuntimeOptions::default();
    let err =
        execute(&target(Layer::Implementer), &runtime, "main", "jules", Some("jules")).unwrap_err();
    match err {
        AppError::Validation(msg) => {
            assert!(msg.contains("implementer"), "error should name the layer: {}", msg);
            assert!(msg.contains("main"), "error should name expected branch: {}", msg);
            assert!(msg.contains("jules"), "error should name current branch: {}", msg);
        }
        other => panic!("unexpected: {:?}", other),
    }
}

#[test]
fn branch_override_bypasses_validation() {
    let runtime = RunRuntimeOptions { branch: Some("feature".to_string()), ..RunRuntimeOptions::default() };
    let result = execute(&target(Layer::Decider), &runtime, "main", "jules", None);
    assert!(result.is_ok(), "branch override should bypass validation: {:?}", result.err());
}

#[test]
fn mock_run_restores_the_expected_branch() {
    let runtime = RunRuntimeOptions { mock: true, ..RunRuntimeOptions::default() };
    let plan = execute(&target(Layer::Observers), &runtime, "main", "jules", Some("jules")).unwrap();
    assert_eq!(plan.expected_branch, "jules");
    assert!(plan.validate_mock);
    assert!(plan.restore_branch);
}

#[test]
fn task_is_only_for_innovators() {
    let mut t = target(Layer::Observers);
    t.task = Some("create_three_proposals".to_string());
    assert!(matches!(validate_run_target(&t), Err(AppError::Validation(_))));
    t.layer = Layer::Innovators;
    assert!(validate_run_target(&t).is_ok());
    t.task = Some("../escape".to_string());
    assert!(matches!(validate_run_target(&t), Err(AppError::Validation(_))));
}

#[test]
fn starting_branch_per_layer_contract() {
    assert_eq!(resolve_starting_branch(Layer::Implementer, "main", "jules", None), "main");
    assert_eq!(resolve_starting_branch(Layer::Planner, "main", "jules", None), "jules");
    assert_eq!(resolve_starting_branch(Layer::Planner, "main", "jules", Some("x")), "x");
}

#[test]
fn layer_strategies_match_their_layers() {
    let all = Layer::all();
    for layer in all {
        assert_eq!(get_layer_strategy(layer).layer(), layer);
    }
}

#[test]
fn layer_plans_check_their_arguments() {
    let planner = get_layer_strategy(Layer::Planner);
    assert!(matches!(planner.plan(&target(Layer::Planner), false, false), Err(AppError::MissingArgument(_))));
    let mut t = target(Layer::Implementer);
    t.requirement = Some(".jules/exchange/requirements/a.yml".to_string());
    let plan = get_layer_strategy(Layer::Implementer).plan(&t, false, false).unwrap();
    assert_eq!(plan.roles, vec!["implementer"]);
    assert_eq!(plan.requirement.as_deref(), Some(".jules/exchange/requirements/a.yml"));
    assert_eq!(plan.cleanup_requirement.as_deref(), Some(".jules/exchange/requirements/a.yml"));

    let observers = get_layer_strategy(Layer::Observers);
    let mut o = target(Layer::Observers);
    assert!(matches!(observers.plan(&o, true, false), Err(AppError::MissingArgument(_))));
    o.role = Some("qa".to_string());
    assert!(matches!(observers.plan(&o, false, false), Err(AppError::RoleNotFound(_))));
    assert_eq!(observers.plan(&o, false, true).unwrap().roles, vec!["qa"]);

    let innovators = get_layer_strategy(Layer::Innovators);
    let mut i = target(Layer::Innovators);
    i.role = Some("alice".to_string());
    assert!(matches!(innovators.plan(&i, false, true), Err(AppError::MissingArgument(_))));
    i.task = Some("other".to_string());
    assert!(matches!(innovators.plan(&i, false, true), Err(AppError::Validation(_))));
    i.task = Some("create_three_proposals".to_string());
    assert_eq!(innovators.plan(&i, false, true).unwrap().roles, vec!["alice"]);
    assert_eq!(innovators.plan(&i, true, false).unwrap().roles, vec!["alice"]);
    i.task = None;
    assert!(matches!(innovators.plan(&i, true, false), Err(AppError::MissingArgument(_))));
}

#[test]
fn layer_names_read_back() {
    for layer in Layer::all() {
        assert_eq!(Layer::from_dir_name(layer.dir_name()), Some(layer));
    }
    assert_eq!(Layer::from_dir_name("deciders"), None);
    assert!(Layer::Observers.uses_worker_branch());
    assert!(!Layer::Implementer.uses_worker_branch());
    assert!(Layer::Planner.is_requirement_driven());
    assert!(!Layer::Innovators.is_single_role());
}

#[test]
fn task_files() {
    assert_eq!(innovator_task_file("create_three_proposals").unwrap(), "create_three_proposals.yml");
    assert!(innovator_task_file("other").is_err());
    assert_eq!(resolve_innovator_task("creation").unwrap(), "create_idea.yml");
    assert_eq!(resolve_innovator_task("refinement").unwrap(), "refine_proposal.yml");
    assert!(matches!(resolve_innovator_task("x"), Err(AppError::Validation(_))));
    assert_eq!(resolve_implementer_task("bugs"), "bugs.yml");
}

#[test]
fn requirement_label_is_read_and_checked() {
    assert_eq!(extract_requirement_label("id: abc123\nlabel: bugs\n").unwrap(), "bugs");
    assert!(matches!(extract_requirement_label("id: abc123\n"), Err(AppError::Validation(_))));
    assert!(matches!(extract_requirement_label("label: \"\"\n"), Err(AppError::Validation(_))));
    assert!(matches!(extract_requirement_label("label: ../x\n"), Err(AppError::Validation(_))));
    assert!(matches!(extract_requirement_label("label: [\n"), Err(AppError::Validation(_))));
}

#[test]
fn requirement_prompts_append_the_requirement() {
    assert_eq!(
        planner_prompt("P", "r.yml", "body"),
        "P\n---\n# Requirement Content\nFile: r.yml\n\nbody"
    );
    assert_eq!(implementer_prompt("P", "body"), "P\n---\n# Requirement Content\nbody");
}

#[test]
fn cleanup_follows_the_runtime_options() {
    let runtime = RunRuntimeOptions::default();
    assert_eq!(cleanup_requirement(&runtime, Some("r.yml")), Some("r.yml"));
    let skip = RunRuntimeOptions { no_cleanup: true, ..RunRuntimeOptions::default() };
    assert_eq!(cleanup_requirement(&skip, Some("r.yml")), None);
    let push = cleanup_push("abc123");
    assert_eq!(push.change_token, "requirement-cleanup-abc123");
    assert_eq!(push.commit_message, "jules: clean requirement abc123");
    assert_eq!(push.pr_title, "chore: clean requirement abc123");
    assert!(push.pr_body.starts_with("Automated cleanup for processed requirement `abc123`."));
}

#[test]
fn empty_pending_dir_returns_false() {
    assert!(!jlo::strategy::has_pending_events(&Vec::new()));
}

#[test]
fn pending_yml_returns_true() {
    let entries = vec![(".jules/exchange/events/pending/event1.yml".to_string(), true)];
    assert!(jlo::strategy::has_pending_events(&entries));
}

#[test]
fn pending_non_yml_ignored() {
    let entries = vec![
        (".jules/exchange/events/pending/README.md".to_string(), true),
        (".jules/exchange/events/pending/.yml".to_string(), true),
        (".jules/exchange/events/pending/dir.yml".to_string(), false),
    ];
    assert!(!jlo::strategy::has_pending_events(&entries));
}

#[test]
fn path_extensions() {
    assert_eq!(jlo::path::path_extension("a/b.tar.gz"), Some("gz"));
    assert_eq!(jlo::path::path_extension("a/.hidden"), None);
    assert_eq!(jlo::path::path_extension("a/noext"), None);
    assert_eq!(jlo::path::path_extension("a/end."), Some(""));
}

#[test]
fn mock_observer_restores_worker_branch_after_success() {
    let runtime = RunRuntimeOptions { mock: true, ..RunRuntimeOptions::default() };
    let mut t = target(Layer::Observers);
    t.role = Some("taxonomy".to_string());
    let plan = execute(&t, &runtime, "main", "jules", Some("jules")).unwrap();
    assert!(plan.restore_branch, "mock observer run should restore worker branch context");
    assert_eq!(plan.expected_branch, "jules");
}

#[test]
fn no_pending_dir_returns_false() {
    let entries: Vec<(String, bool)> = Vec::new();
    assert!(!jlo::strategy::has_pending_events(&entries));
}

#[test]
fn wrong_branch_message_names_layer_and_branches() {
    let runtime = RunRuntimeOptions::default();
    let err = execute(&target(Layer::Decider), &runtime, "main", "jules", Some("main")).unwrap_err();
    assert_eq!(err.message(), "Layer 'decider' requires branch 'jules', but current branch is 'main'");
}

#[test]
fn dry_and_mock_runs_carry_no_session_ids() {
    let started = vec!["s1".to_string()];
    let dry = jlo::run::run_result(RunPlan::DryRun { roles: vec!["a".into()], starting_branch: "jules".into() }, started.clone());
    assert!(dry.dry_run && dry.sessions.is_empty());
    assert_eq!(dry.roles, vec!["a".to_string()]);
    let mock = jlo::run::run_result(
        RunPlan::Sessions { roles: vec!["a".into()], starting_branch: "jules".into(), mock: true },
        started.clone(),
    );
    assert!(!mock.dry_run && mock.sessions.is_empty());
    let real = jlo::run::run_result(
        RunPlan::Sessions { roles: vec!["a".into()], starting_branch: "jules".into(), mock: false },
        started.clone(),
    );
    assert_eq!(real.sessions, started);
    let none = jlo::run::run_result(RunPlan::NothingConfigured { dry_run: false }, started);
    assert!(none.roles.is_empty() && none.sessions.is_empty());
}

#[test]
fn innovator_task_is_read_from_its_file() {
    assert_eq!(
        jlo::strategy::innovator_task_path(".jules/roles/innovators/tasks", "creation").unwrap(),
        ".jules/roles/innovators/tasks/create_idea.yml"
    );
    assert_eq!(
        jlo::strategy::innovator_task_path("t", "refinement").unwrap(),
        "t/refine_proposal.yml"
    );
    match jlo::strategy::innovator_task_path("t", "other") {
        Err(AppError::Validation(m)) => assert_eq!(m, "Unknown innovator phase 'other': must be 'creation' or 'refinement'"),
        other => panic!("unexpected: {:?}", other),
    }
    assert_eq!(jlo::strategy::innovator_task_content("creation", "t/create_idea.yml", Some("task".into())).unwrap(), "task");
    match jlo::strategy::innovator_task_content("creation", "t/create_idea.yml", None) {
        Err(AppError::Validation(m)) => assert_eq!(m, "No task file for innovator phase 'creation': expected t/create_idea.yml"),
        other => panic!("unexpected: {:?}", other),
    }
}

#[test]
fn layer_argument_errors_carry_their_messages() {
    let observers = get_layer_strategy(Layer::Observers);
    match observers.plan(&target(Layer::Observers), false, false) {
        Err(AppError::MissingArgument(m)) => assert_eq!(m, "Role is required for observers"),
        other => panic!("unexpected: {:?}", other.err()),
    }
    let mut t = target(Layer::Observers);
    t.role = Some("qa".into());
    match observers.plan(&t, false, false) {
        Err(AppError::RoleNotFound(m)) => assert_eq!(m, "observers/roles/qa (role.yml not found)"),
        other => panic!("unexpected: {:?}", other.err()),
    }
    match get_layer_strategy(Layer::Planner).plan(&target(Layer::Planner), false, false) {
        Err(AppError::MissingArgument(m)) => assert_eq!(m, "Requirement path is required for planner"),
        other => panic!("unexpected: {:?}", other.err()),
    }
}
