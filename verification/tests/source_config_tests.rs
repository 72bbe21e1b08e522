use jlo::config::{load_config, parse_config_content, AgentConfig, RunConfig};
use jlo::error::AppError;
use jlo::source::{detect_repository_source, parse_github_url};

#[test]
fn config_parse_github_url_ssh() {
    let result = parse_github_url("git@github.com:owner/repo.git");
    assert_eq!(result, Some("owner/repo".to_string()));
}

#[test]
fn config_parse_github_url_https() {
    let result = parse_github_url("https://github.com/owner/repo.git");
    assert_eq!(result, Some("owner/repo".to_string()));
}

#[test]
fn config_parse_github_url_invalid() {
    let result = parse_github_url("https://gitlab.com/owner/repo.git");
    assert_eq!(result, None);
}

#[test]
fn execute_parse_github_url_ssh() {
    let result = parse_github_url("git@github.com:owner/repo.git");
    assert_eq!(result, Some("owner/repo".to_string()));
}

#[test]
fn execute_parse_github_url_https() {
    let result = parse_github_url("https://github.com/owner/repo.git");
    assert_eq!(result, Some("owner/repo".to_string()));
}

#[test]
fn execute_parse_github_url_invalid() {
    let result = parse_github_url("https://gitlab.com/owner/repo.git");
    assert_eq!(result, None);
}

#[test]
fn github_url_without_git_suffix_is_kept() {
    assert_eq!(parse_github_url("https://github.com/owner/repo"), Some("owner/repo".to_string()));
}

#[test]
fn repository_source_prefers_remote_then_environment() {
    assert_eq!(
        detect_repository_source(Some("git@github.com:a/b.git"), Some("c/d")),
        Ok("sources/github/a/b".to_string())
    );
    assert_eq!(
        detect_repository_source(Some("https://gitlab.com/a/b.git"), Some("c/d")),
        Ok("sources/github/c/d".to_string())
    );
    assert_eq!(detect_repository_source(None, None), Err(AppError::RepositoryDetectionFailed));
}

#[test]
fn run_config_parses_from_toml() {
    let toml = r#"
[run]
default_branch = "develop"
parallel = false
max_parallel = 5

[jules]
api_url = "https://example.com/v1/sessions"
timeout_secs = 10
max_retries = 1
retry_delay_ms = 250
"#;
    let config = parse_config_content(toml).unwrap();

    assert_eq!(config.run.default_branch, "develop");
    assert!(!config.run.parallel);
    assert_eq!(config.run.max_parallel, 5);
    assert_eq!(config.jules.api_url.as_str(), "https://example.com/v1/sessions");
}

#[test]
fn run_config_uses_defaults_for_missing_sections() {
    let toml = r#""#;
    let config = parse_config_content(toml).unwrap();

    assert_eq!(config.run.default_branch, "main");
    assert!(config.run.parallel);
}

#[test]
fn run_config_rejects_agents_section() {
    let toml = r#"
[agents]
observers = ["taxonomy"]
"#;
    let err = parse_config_content(toml).unwrap_err();
    match err {
        AppError::Validation(msg) => assert!(msg.contains("Legacy [agents] section")),
        other => panic!("unexpected error: {:?}", other),
    }
}

#[test]
fn run_config_defaults_are_complete() {
    let config = parse_config_content("").unwrap();
    assert_eq!(config.run.jules_branch, "jules");
    assert_eq!(config.run.max_parallel, 3);
    assert_eq!(config.jules.api_url, "https://jules.googleapis.com/v1alpha/sessions");
    assert_eq!(config.jules.timeout_secs, 30);
    assert_eq!(config.jules.max_retries, 3);
    assert_eq!(config.jules.retry_delay_ms, 1000);
}

#[test]
fn run_config_rejects_unknown_field() {
    let err = parse_config_content("[run]\nbranch = \"x\"\n").unwrap_err();
    assert!(matches!(err, AppError::RunConfigInvalid(_)));
}

#[test]
fn run_config_rejects_wrong_type() {
    let err = parse_config_content("[run]\nparallel = \"yes\"\n").unwrap_err();
    assert!(matches!(err, AppError::RunConfigInvalid(_)));
}

#[test]
fn run_config_rejects_invalid_url() {
    let err = parse_config_content("[jules]\napi_url = \"not a url\"\n").unwrap_err();
    assert!(matches!(err, AppError::RunConfigInvalid(_)));
}

#[test]
fn run_config_rejects_malformed_toml() {
    let err = parse_config_content("[run\n").unwrap_err();
    assert!(matches!(err, AppError::RunConfigInvalid(_)));
}

#[test]
fn missing_config_file_is_reported() {
    assert!(matches!(load_config(None), Err(AppError::RunConfigMissing)));
    assert!(load_config(Some("")).is_ok());
}

#[test]
fn default_run_config_has_no_roles() {
    let config = RunConfig::default();
    let agents: AgentConfig = config.agents;
    assert!(agents.observers.is_empty());
    assert!(agents.deciders.is_empty());
    assert!(agents.planners.is_empty());
    assert!(agents.implementers.is_empty());
}

#[test]
fn run_config_reads_documented_branch_keys_and_role_sections() {
    let toml = r#"[run]
jlo_target_branch = "main"
jules_worker_branch = "jules"

[observers]
roles = [
  { name = "taxonomy", enabled = true },
]
"#;
    let config = parse_config_content(toml).unwrap();
    assert_eq!(config.run.default_branch, "main");
    assert_eq!(config.run.jules_branch, "jules");
    let custom = parse_config_content("[run]\njlo_target_branch = \"custom\"\njules_worker_branch = \"custom-jules\"\n").unwrap();
    assert_eq!(custom.run.default_branch, "custom");
    assert_eq!(custom.run.jules_branch, "custom-jules");
}

#[test]
fn legacy_agents_error_message() {
    let err = parse_config_content("[agents]\nobservers = [\"taxonomy\"]\n").unwrap_err();
    assert_eq!(
        err.message(),
        "Legacy [agents] section is not supported. Use workstreams/<name>/scheduled.toml."
    );
}
