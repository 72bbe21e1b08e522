use jlo::error::AppError;
use jlo::setup::{execute, execute_detail, load_setup_tools, setup_init, EnvVarInfo, SetupComponent};

fn component(name: &str, summary: &str, deps: &[&str]) -> SetupComponent {
    SetupComponent {
        name: name.to_string(),
        summary: summary.to_string(),
        dependencies: deps.iter().map(|d| d.to_string()).collect(),
        env: vec![EnvVarInfo {
            name: format!("{}_VERSION", name.to_uppercase()),
            description: format!("Version of {}", name),
            default: Some("latest".to_string()),
        }],
        script_content: format!("install_{}\n", name),
    }
}

fn catalog() -> Vec<SetupComponent> {
    vec![
        component("gh", "GitHub CLI", &[]),
        component("just", "Command runner", &[]),
        component("swift", "Swift toolchain", &[]),
        component("uv", "Python package manager", &[]),
    ]
}

#[test]
fn list_returns_components() {
    let result = execute(&catalog());

    assert!(!result.is_empty());
    assert!(result.iter().any(|c| c.name == "gh"));
    assert!(result.iter().any(|c| c.name == "just"));
    assert!(result.iter().any(|c| c.name == "swift"));
    assert!(result.iter().any(|c| c.name == "uv"));
}

#[test]
fn detail_returns_component_info() {
    let result = execute_detail(&catalog(), "just").unwrap();

    assert_eq!(result.name, "just");
    assert!(!result.summary.is_empty());
    assert!(!result.script_content.is_empty());
    assert_eq!(result.env_vars.len(), 1);
    assert_eq!(result.env_vars[0].default.as_deref(), Some("latest"));
}

#[test]
fn detail_not_found() {
    let result = execute_detail(&catalog(), "nonexistent");

    assert!(matches!(result, Err(AppError::ComponentNotFound { .. })));
    if let Err(AppError::ComponentNotFound { name, available }) = result {
        assert_eq!(name, "nonexistent");
        assert_eq!(available, vec!["gh", "just", "swift", "uv"]);
    }
}

#[test]
fn fails_if_not_initialized() {
    let result = load_setup_tools(false, None);

    assert!(matches!(result, Err(AppError::SetupNotInitialized)));
}

#[test]
fn fails_if_tools_yml_missing() {
    let result = load_setup_tools(true, None);

    assert!(matches!(result, Err(AppError::SetupConfigMissing)));
}

#[test]
fn fails_if_no_tools_specified() {
    let result = load_setup_tools(true, Some(Ok(Vec::new())));

    assert!(result.is_err());
}

#[test]
fn tools_are_read_in_order() {
    let tools = vec!["just".to_string(), "uv".to_string()];
    assert_eq!(load_setup_tools(true, Some(Ok(tools))).unwrap(), vec!["just", "uv"]);
    match load_setup_tools(true, Some(Err("missing field `tools`".to_string()))) {
        Err(AppError::ParseError { what, details }) => {
            assert_eq!(what, "tools.yml");
            assert_eq!(details, "missing field `tools`");
        }
        other => panic!("unexpected: {:?}", other),
    }
    match load_setup_tools(true, Some(Ok(Vec::new()))) {
        Err(AppError::Validation(m)) => assert_eq!(m, "No tools specified in tools.yml. Add tools to the 'tools' list."),
        other => panic!("unexpected: {:?}", other),
    }
}

#[test]
fn creates_setup_directory() {
    let files = setup_init("/repo", false).unwrap();
    let paths: Vec<&str> = files.iter().map(|(p, _)| p.as_str()).collect();
    assert_eq!(paths, vec!["/repo/.jules/setup/tools.yml", "/repo/.jules/setup/.gitignore"]);
}

#[test]
fn fails_if_already_exists() {
    let result = setup_init("/repo", true);
    assert!(result.is_err());
}

#[test]
fn tools_yml_has_correct_content() {
    let files = setup_init("/repo", false).unwrap();
    let content = &files[0].1;
    assert!(content.contains("tools:"));
    assert!(content.contains("# - just"));
    assert!(files[1].1.contains("env.toml"));
}
