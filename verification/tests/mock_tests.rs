use jlo::config::ExecutionConfig;
use jlo::error::AppError;
use jlo::layer::Layer;
use jlo::mock::{decimal_text, extract_branch_prefix, generate_mock_id, mock_id_from_nanos, parse_issue_for_branch};
use jlo::mock_implementer::parse_issue_for_branch as strict_parse_issue_for_branch;
use jlo::mock_implementer::{parse_requirement_for_branch, RequirementMeta};
use jlo::mock_run::{decider_issue_content, innovator_idea_content, innovator_perspective_content, mock_proposal_content, mock_event_file_name, observer_comment_content, observer_comment_file_name, observer_event_content};
use jlo::mock_run::{
    assigned_issue, decider_source_events, extract_issue_labels, innovator_phase,
    innovator_proposal_args, list_mock_decided_files, load_mock_config, mock_event_id_from_path,
    mock_layers, mock_proposal_file_name, mock_proposal_title, sanitize_yaml_value,
    validate_mock_prerequisites, validate_safe_path_component, InnovatorPhase, MockConfig,
    execute_mock_narrator, mock_output_lines, MockOutput,
};

#[test]
fn test_extract_branch_prefix() {
    let content = r#"
layer: observers
branch_prefix: jules-observer-
constraints:
  - Do NOT write to issues/
"#;
    assert_eq!(extract_branch_prefix(content), Some("jules-observer-".to_string()));
}

#[test]
fn test_extract_branch_prefix_with_quotes() {
    let content = r#"branch_prefix: "jules-test-""#;
    assert_eq!(extract_branch_prefix(content), Some("jules-test-".to_string()));
}

#[test]
fn branch_prefix_skips_empty_values() {
    assert_eq!(extract_branch_prefix("branch_prefix: \"\"\nbranch_prefix: b-\n"), Some("b-".to_string()));
    assert_eq!(extract_branch_prefix("layer: x\n"), None);
}

#[test]
fn test_extract_issue_labels() {
    let content = r#"{
            "issue_labels": {
                "bugs": {"color": "d73a4a"},
                "feats": {"color": "ff6600"}
            }
        }"#;
    let labels = extract_issue_labels(content).unwrap();
    assert!(labels.contains(&"bugs".to_string()));
    assert!(labels.contains(&"feats".to_string()));
}

#[test]
fn issue_labels_errors_and_absence() {
    assert!(matches!(extract_issue_labels("{"), Err(AppError::ParseError { .. })));
    assert_eq!(extract_issue_labels("{\"other\": 1}").unwrap(), Vec::<String>::new());
    assert_eq!(extract_issue_labels("{\"issue_labels\": [1]}").unwrap(), Vec::<String>::new());
}

#[test]
fn mock_test_generate_mock_id() {
    let id1 = generate_mock_id();
    let id2 = generate_mock_id();
    assert_eq!(id1.len(), 6);
    assert_eq!(id2.len(), 6);
}

#[test]
fn identity_test_generate_mock_id() {
    let id1 = generate_mock_id();
    let id2 = generate_mock_id();
    assert_eq!(id1.len(), 6);
    assert_eq!(id2.len(), 6);
}

#[test]
fn mock_ids_are_six_hex_digits() {
    assert_eq!(mock_id_from_nanos(0), "000000");
    assert_eq!(mock_id_from_nanos(255), "0000ff");
    assert_eq!(mock_id_from_nanos(0xFFFFFF), "000000");
    assert_eq!(mock_id_from_nanos(0x1000000), "000001");
    assert_eq!(decimal_text(0), "0");
    assert_eq!(decimal_text(1234), "1234");
}

#[test]
fn mock_test_parse_issue_for_branch() {
    let content = r#"
id: "abc123"
label: "bugs"
title: "Test issue"
"#;
    let path = ".jules/workstreams/generic/exchange/issues/bugs/test.yml";
    let (label, id) = parse_issue_for_branch(content, path).unwrap();
    assert_eq!(label, "bugs");
    assert_eq!(id, "abc123");
}

#[test]
fn lenient_issue_parse_falls_back_to_directory_and_fresh_id() {
    let (label, id) = parse_issue_for_branch("title: x\n", ".jules/issues/feats/a.yml").unwrap();
    assert_eq!(label, "feats");
    assert_eq!(id.len(), 6);
}

#[test]
fn implementer_test_parse_issue_for_branch() {
    let content = r#"
id: "abc123"
label: "bugs"
title: "Test issue"
"#;
    let path = ".jules/exchange/requirements/test.yml";
    let (label, id) = strict_parse_issue_for_branch(content, path).unwrap();
    assert_eq!(label, "bugs");
    assert_eq!(id, "abc123");
}

#[test]
fn strict_requirement_parse_rejects_bad_ids() {
    assert!(matches!(strict_parse_issue_for_branch("label: bugs\n", "r.yml"), Err(AppError::Validation(_))));
    assert!(matches!(
        strict_parse_issue_for_branch("label: bugs\nid: ABC123\n", "r.yml"),
        Err(AppError::Validation(_))
    ));
    assert!(matches!(strict_parse_issue_for_branch("id: abc123\n", "r.yml"), Err(AppError::Validation(_))));
}

#[test]
fn parses_mock_event_id_from_path() {
    let mock_tag = "mock-run-123";
    let valid_path = "mock-mock-run-123-a1b2c3.yml";
    let invalid_path = "mock-other-tag-a1b2c3.yml";

    assert_eq!(mock_event_id_from_path(valid_path, mock_tag), Some("a1b2c3".to_string()));
    assert_eq!(mock_event_id_from_path(invalid_path, mock_tag), None);
}

#[test]
fn lists_only_tagged_decided_files_in_sorted_order() {
    let files = vec![
        "decided/mock-mock-run-123-bbbbbb.yml".to_string(),
        "decided/mock-mock-run-123-aaaaaa.yml".to_string(),
        "decided/mock-other-run-cccccc.yml".to_string(),
        "decided/notes.txt".to_string(),
    ];
    let listed = list_mock_decided_files(&files, "mock-run-123");
    assert_eq!(listed.len(), 2);
    assert!(listed[0].ends_with("mock-mock-run-123-aaaaaa.yml"));
    assert!(listed[1].ends_with("mock-mock-run-123-bbbbbb.yml"));
}

#[test]
fn mock_decider_fails_with_insufficient_events() {
    let files = vec!["mock-t-aaaaaa.yml".to_string()];
    match decider_source_events(&files, "t") {
        Err(AppError::Validation(msg)) => assert!(msg.contains("found 1")),
        other => panic!("unexpected: {:?}", other),
    }
    let files = vec!["mock-t-aaaaaa.yml".to_string(), "mock-t-bbbbbb.yml".to_string()];
    let (planner, implementer) = decider_source_events(&files, "t").unwrap();
    assert_eq!(planner, "aaaaaa");
    assert_eq!(implementer, "bbbbbb");
    assert_eq!(assigned_issue("aaaaaa", &planner, "p1", "i1"), "p1");
    assert_eq!(assigned_issue("cccccc", &planner, "p1", "i1"), "i1");
}

#[test]
fn mock_prerequisites_are_checked_in_order() {
    assert!(matches!(validate_mock_prerequisites(false, false, false), Err(AppError::MissingArgument(_))));
    match validate_mock_prerequisites(true, false, false) {
        Err(AppError::ExternalToolError { tool, .. }) => assert_eq!(tool, "git"),
        other => panic!("unexpected: {:?}", other),
    }
    match validate_mock_prerequisites(true, true, false) {
        Err(AppError::ExternalToolError { tool, .. }) => assert_eq!(tool, "gh"),
        other => panic!("unexpected: {:?}", other),
    }
    assert!(validate_mock_prerequisites(true, true, true).is_ok());
}

fn run_config() -> ExecutionConfig {
    ExecutionConfig { default_branch: "main".to_string(), jules_branch: "jules".to_string(), parallel: true, max_parallel: 3 }
}

#[test]
fn mock_config_is_loaded_from_contracts_labels_and_environment() {
    let layers = mock_layers();
    let mut contracts: Vec<Option<String>> = vec![None; layers.len()];
    contracts[1] = Some("branch_prefix: jules-observer-\n".to_string());
    contracts[5] = Some("branch_prefix: \"jules-innovator-\"\n".to_string());
    let config =
        load_mock_config(&run_config(), &contracts, None, None, true, "20260101000000").unwrap();
    assert_eq!(config.mock_tag, "ci-20260101000000");
    assert_eq!(config.issue_labels, vec!["bugs", "feats", "refacts"]);
    assert_eq!(config.default_branch, "main");
    assert_eq!(config.jules_branch, "jules");
    assert_eq!(config.branch_prefix(Layer::Observers).unwrap(), "jules-observer-");
    assert_eq!(config.branch_prefix(Layer::Innovators).unwrap(), "jules-innovator-");
    assert!(matches!(config.branch_prefix(Layer::Planner), Err(AppError::InvalidConfig(_))));
    assert_eq!(
        config.branch_name(Layer::Observers, "20260101000000").unwrap(),
        "jules-observer-ci-20260101000000-20260101000000"
    );

    let local = load_mock_config(&run_config(), &contracts, Some("{\"issue_labels\": {\"docs\": {}}}"), Some("tag-1"), false, "t").unwrap();
    assert_eq!(local.mock_tag, "tag-1");
    assert_eq!(local.issue_labels, vec!["docs"]);
    let missing_tag = load_mock_config(&run_config(), &contracts, None, None, false, "t").unwrap();
    assert_eq!(missing_tag.mock_tag, "local-t");
    assert!(matches!(
        load_mock_config(&run_config(), &contracts, Some("{"), None, false, "t"),
        Err(AppError::ParseError { .. })
    ));
}

#[test]
fn mock_branch_names_start_with_the_layer_prefix() {
    let config = MockConfig {
        mock_tag: "mock-test-001".to_string(),
        branch_prefixes: vec![(Layer::Innovators, "jules-innovator-".to_string())],
        default_branch: "main".to_string(),
        jules_branch: "jules".to_string(),
        issue_labels: vec![],
    };
    assert!(config.branch_name(Layer::Innovators, "20260101").unwrap().starts_with("jules-innovator-"));
}

#[test]
fn yaml_values_are_sanitized() {
    assert_eq!(sanitize_yaml_value("a: b # [c] {d} 'e' \"f\"\nx\r"), "a b  c d e fx");
    assert_eq!(sanitize_yaml_value(&sanitize_yaml_value("k: v")), sanitize_yaml_value("k: v"));
}

#[test]
fn safe_path_components() {
    assert!(validate_safe_path_component("leverage_architect-2"));
    assert!(!validate_safe_path_component(""));
    assert!(!validate_safe_path_component("../x"));
    assert!(!validate_safe_path_component("a b"));
}

#[test]
fn mock_innovator_rejects_missing_phase() {
    assert!(innovator_phase(Some("alice"), None).is_err());
}

#[test]
fn mock_innovator_rejects_invalid_phase() {
    assert!(innovator_phase(Some("alice"), Some("invalid")).is_err());
}

#[test]
fn innovator_phases() {
    assert_eq!(innovator_phase(Some("alice"), Some("creation")).unwrap(), InnovatorPhase::Creation);
    assert_eq!(innovator_phase(Some("alice"), Some("refinement")).unwrap(), InnovatorPhase::Refinement);
    assert!(matches!(innovator_phase(None, Some("creation")), Err(AppError::MissingArgument(_))));
    assert!(matches!(innovator_phase(Some("a/b"), Some("creation")), Err(AppError::Validation(_))));
}

#[test]
fn mock_innovator_rejects_missing_task() {
    let result = innovator_proposal_args(Some("alice"), None);
    assert!(result.is_err());
}

#[test]
fn mock_innovator_rejects_invalid_task() {
    let result = innovator_proposal_args(Some("alice"), Some("invalid"));
    assert!(result.is_err());
}

#[test]
fn mock_innovator_normalizes_underscored_role_in_proposal_filenames() {
    let (role, _) = innovator_proposal_args(Some("leverage_architect"), Some("create_three_proposals")).unwrap();
    assert_eq!(mock_proposal_file_name(role, 1), "leverage-architect-mock-proposal-1.yml");
    assert_eq!(mock_proposal_file_name(role, 2), "leverage-architect-mock-proposal-2.yml");
    assert_eq!(mock_proposal_file_name(role, 3), "leverage-architect-mock-proposal-3.yml");
    assert_eq!(mock_proposal_title(2, "alice"), "Mock proposal 2 for alice");
}

#[test]
fn narrator_narrator_mock_is_noop() {
    let config = MockConfig {
        mock_tag: "mock-run-123".to_string(),
        branch_prefixes: vec![(Layer::Narrator, "jules-narrator-".to_string())],
        default_branch: "main".to_string(),
        jules_branch: "jules".to_string(),
        issue_labels: vec!["bugs".to_string()],
    };

    let output = execute_mock_narrator(&config).expect("mock narrator should succeed as no-op");

    assert_eq!(output.mock_branch, "");
    assert_eq!(output.mock_pr_number, 0);
    assert_eq!(output.mock_pr_url, "");
    assert_eq!(output.mock_tag, "mock-run-123");
}

#[test]
fn mock_narrator_needs_its_prefix() {
    let config = MockConfig {
        mock_tag: "t".to_string(),
        branch_prefixes: vec![],
        default_branch: "main".to_string(),
        jules_branch: "jules".to_string(),
        issue_labels: vec![],
    };
    assert!(matches!(execute_mock_narrator(&config), Err(AppError::InvalidConfig(_))));
}

#[test]
fn mock_outputs_are_reported_as_lines() {
    let o = MockOutput {
        mock_branch: "b".to_string(),
        mock_pr_number: 42,
        mock_pr_url: "u".to_string(),
        mock_tag: "t".to_string(),
    };
    assert_eq!(mock_output_lines(&o, false), "mock_branch=b\nmock_pr_number=42\nmock_pr_url=u\nmock_tag=t\n");
    assert_eq!(mock_output_lines(&o, true), "MOCK_BRANCH=b\nMOCK_PR_NUMBER=42\nMOCK_PR_URL=u\nMOCK_TAG=t\n");
}

fn implementer_config() -> MockConfig {
    MockConfig {
        mock_tag: "mock-run-1".to_string(),
        branch_prefixes: vec![(Layer::Implementer, "jules-implementer-".to_string())],
        default_branch: "main".to_string(),
        jules_branch: "jules".to_string(),
        issue_labels: vec!["bugs".to_string(), "feats".to_string()],
    }
}

#[test]
fn mock_implementer_names_its_branch_from_the_requirement() {
    let plan = jlo::mock_implementer::plan_mock_implementer(
        &implementer_config(),
        &meta("bugs", "abc123"),
        ".jules/exchange/requirements/r.yml",
        None,
    )
    .unwrap();
    assert_eq!(plan.branch_name, "jules-implementer-bugs-abc123-mock-run-1");
    assert_eq!(plan.base_branch, "main");
    assert_eq!(plan.label, "bugs");
    assert_eq!(plan.issue_id, "abc123");
}

#[test]
fn mock_implementer_fails_if_label_not_allowed() {
    let result = jlo::mock_implementer::plan_mock_implementer(
        &implementer_config(),
        &meta("features", "abc123"),
        ".jules/exchange/requirements/req.yml",
        None,
    );
    assert!(result.is_err());
    assert!(
        matches!(result, Err(AppError::InvalidConfig(msg)) if msg.contains("not defined in github-labels.json"))
    );
}

#[test]
fn mock_implementer_marker_file() {
    let (path, content) = jlo::mock_implementer::mock_marker("run-1", "abc123", "2026-01-01T00:00:00Z");
    assert_eq!(path, ".run-1");
    assert_eq!(content, "# Mock implementation marker\n# Mock tag: run-1\n# Issue: abc123\n# Created: 2026-01-01T00:00:00Z\n");
}

#[test]
fn mock_observer_artifacts() {
    assert_eq!(mock_event_file_name("t", "a1b2c3"), "mock-t-a1b2c3.yml");
    assert_eq!(mock_event_id_from_path(&mock_event_file_name("mock-run-1", "a1b2c3"), "mock-run-1"), Some("a1b2c3".to_string()));
    let template = "id: mock01\ndate: 2026-02-05\ntag: test-tag\nnote: workflow validation\n";
    assert_eq!(
        observer_event_content(template, "ffffff", "2026-03-01", "run-9", false),
        "id: ffffff\ndate: 2026-03-01\ntag: run-9\nnote: workflow validation\n"
    );
    assert_eq!(
        observer_event_content(template, "ffffff", "2026-03-01", "run-9", true),
        "id: ffffff\ndate: 2026-03-01\ntag: run-9\nnote: workflow implementation check\n"
    );
    assert_eq!(observer_comment_file_name("qa", "run-9"), "observer-qa-run-9.yml");
    assert_eq!(observer_comment_content("by: mock-author\ntag: test-tag\n", "qa", "run-9"), "by: qa\ntag: run-9\n");
}

#[test]
fn mock_innovator_and_decider_artifacts() {
    assert_eq!(
        innovator_idea_content("id: mock01\nby: mock-persona\non: 2026-02-05\ntag: test-tag\n", "abcdef", "alice", "2026-03-01", "run: 1"),
        "id: abcdef\nby: alice\non: 2026-03-01\ntag: run 1\n"
    );
    assert_eq!(
        mock_proposal_content("__ID__|__ROLE__|__DATE__|__TITLE__|__INDEX__|__TAG__", "i", "r", "d", "T", 3, "t#1"),
        "i|r|d|T|3|t1"
    );
    let titles = vec!["one".to_string(), "two".to_string(), "three".to_string()];
    assert_eq!(
        innovator_perspective_content("__ROLE__: __TITLE_1__, __TITLE_2__, __TITLE_3__", "alice", &titles),
        "alice: three, two, one"
    );
    let template = "id: mock01\ntag: test-tag\nsource_events: [event1]\ntitle: Mock issue for workflow validation\npriority: medium\nrequires_deep_analysis: false\n";
    let planner = decider_issue_content(template, "p1", "run", "e1", true);
    assert!(planner.contains("requires_deep_analysis: true\ndeep_analysis_reason:"));
    assert!(planner.contains("title: Mock issue requiring deep analysis"));
    assert!(planner.contains("priority: high"));
    assert!(planner.contains("source_events: [e1]"));
    let implementer = decider_issue_content(template, "i1", "run", "e2", false);
    assert!(implementer.contains("title: Mock issue ready for implementation"));
    assert!(implementer.contains("priority: medium"));
    assert!(implementer.contains("id: i1"));
}

#[test]
fn mock_planner_expands_requirements() {
    let out = jlo::mock_run::planner_expansion("requires_deep_analysis: true\n", "2026-01-01T00:00:00Z", "run-1");
    assert!(out.starts_with("requires_deep_analysis: false\n\n# Mock planner expansion\nexpanded_at: \"2026-01-01T00:00:00Z\""));
    assert!(out.contains("Mock tag: run-1"));
    assert!(out.contains("Mock tag: run-1\n  \n  ## Impact Analysis\n"));
    assert!(out.contains("Mock impact area 2\n  \n  ## Implementation Notes\n"));
}

fn innovator_config() -> MockConfig {
    MockConfig {
        mock_tag: "mock-test-001".to_string(),
        branch_prefixes: vec![(Layer::Innovators, "jules-innovator-".to_string())],
        default_branch: "main".to_string(),
        jules_branch: "jules".to_string(),
        issue_labels: vec![],
    }
}

#[test]
fn mock_innovator_creates_idea_with_creation_phase() {
    let config = innovator_config();
    assert_eq!(innovator_phase(Some("alice"), Some("creation")).unwrap(), InnovatorPhase::Creation);
    let branch = config.branch_name(Layer::Innovators, "20260301120000").unwrap();
    assert!(branch.starts_with("jules-innovator-"));
    let idea = innovator_idea_content("id: mock01\nby: mock-persona\n", "abc123", "alice", "2026-03-01", &config.mock_tag);
    assert_eq!(idea, "id: abc123\nby: alice\n");
}

#[test]
fn mock_innovator_removes_idea_with_refinement_phase() {
    let config = innovator_config();
    assert_eq!(innovator_phase(Some("alice"), Some("refinement")).unwrap(), InnovatorPhase::Refinement);
    assert!(config.branch_name(Layer::Innovators, "20260301120000").unwrap().starts_with("jules-innovator-"));
}

#[test]
fn mock_innovator_creation_then_refinement_is_deterministic() {
    let first = innovator_phase(Some("alice"), Some("creation")).unwrap();
    let second = innovator_phase(Some("alice"), Some("refinement")).unwrap();
    assert_eq!(first, InnovatorPhase::Creation);
    assert_eq!(second, InnovatorPhase::Refinement);
    assert_eq!(innovator_phase(Some("alice"), Some("creation")).unwrap(), first);
}

#[test]
fn mock_implementer_creates_pr_for_valid_requirement() {
    let plan = jlo::mock_implementer::plan_mock_implementer(
        &implementer_config(),
        &meta("bugs", "abc123"),
        ".jules/exchange/requirements/req.yml",
        None,
    )
    .unwrap();
    assert!(plan.branch_name.starts_with("jules-implementer-bugs-abc123-"));
    assert_eq!(plan.base_branch, "main");
}

#[test]
fn mock_innovator_creates_three_proposals_and_updates_perspective() {
    let (role, _) = innovator_proposal_args(Some("alice"), Some("create_three_proposals")).unwrap();
    assert_eq!(mock_proposal_file_name(role, 1), "alice-mock-proposal-1.yml");
    assert_eq!(mock_proposal_file_name(role, 2), "alice-mock-proposal-2.yml");
    assert_eq!(mock_proposal_file_name(role, 3), "alice-mock-proposal-3.yml");
    let config = innovator_config();
    assert!(config.branch_name(Layer::Innovators, "20260301120000").unwrap().starts_with("jules-innovator-"));
}

fn meta(label: &str, id: &str) -> Result<RequirementMeta, String> {
    Ok(RequirementMeta { label: Some(label.to_string()), id: Some(id.to_string()) })
}

#[test]
fn requirement_fields_refusals() {
    let path = ".jules/exchange/requirements/req.yml";
    let cases: Vec<(Result<RequirementMeta, String>, &str)> = vec![
        (Err("bad yaml".to_string()), "Requirement file must be valid YAML (.jules/exchange/requirements/req.yml): bad yaml"),
        (Ok(RequirementMeta { label: None, id: Some("abc123".into()) }), "Requirement file missing label field: .jules/exchange/requirements/req.yml"),
        (Ok(RequirementMeta { label: Some("  ".into()), id: Some("abc123".into()) }), "Requirement file missing label field: .jules/exchange/requirements/req.yml"),
        (meta("../x", "abc123"), "Requirement label '../x' is not a safe path component: .jules/exchange/requirements/req.yml"),
        (Ok(RequirementMeta { label: Some("bugs".into()), id: None }), "Requirement file missing id field: .jules/exchange/requirements/req.yml"),
        (meta("bugs", "ABC123"), "Issue id must be 6 lowercase alphanumeric chars: .jules/exchange/requirements/req.yml"),
    ];
    for (m, expected) in cases {
        match parse_requirement_for_branch(&m, path) {
            Err(AppError::InvalidConfig(msg)) => assert_eq!(msg, expected),
            other => panic!("unexpected: {:?}", other),
        }
    }
    assert_eq!(parse_requirement_for_branch(&meta("bugs", "abc123"), path).unwrap(), ("bugs".to_string(), "abc123".to_string()));
}
