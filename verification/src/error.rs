//! The library's error type.

use vstd::prelude::*;

verus! {

/// Errors reported by the library. Each variant carries the text that the
/// command line shows for it.
#[derive(Debug, Clone, PartialEq, Eq)]
pub enum AppError {
    Validation(String),
    MissingArgument(String),
    RunConfigMissing,
    RunConfigInvalid(String),
    RepositoryDetectionFailed,
    RoleNotInConfig { role: String, layer: String },
    RoleNotFound(String),
    RequirementFileNotFound(String),
    IssueFileNotFound(String),
    ExchangeDirectoryNotFound,
    ParseError { what: String, details: String },
    InternalError(String),
    InvalidConfig(String),
    ConfigError(String),
    ExternalToolError { tool: String, error: String },
    ComponentNotFound { name: String, available: Vec<String> },
    SetupNotInitialized,
    SetupConfigMissing,
    WorkspaceNotFound,
    InvalidLayer(String),
    RoleExists { role: String, layer: String },
    SingleRoleLayerTemplate(String),
    WorkspaceIntegrity(String),
    WorkspaceVersionMismatch { workspace: String, binary: String },
}

/// The text an argument error carries (missing argument, invalid value,
/// role not found); empty for other errors.
pub open spec fn error_payload(e: AppError) -> Seq<char> {
    match e {
        AppError::MissingArgument(m) => m@,
        AppError::Validation(m) => m@,
        AppError::RoleNotFound(m) => m@,
        _ => seq![],
    }
}

/// The text shown for an error: the carried text for the variants that
/// carry one, and a sentence naming the fields for the others.
pub open spec fn error_message(e: AppError) -> Seq<char> {
    match e {
        AppError::Validation(m) => m@,
        AppError::MissingArgument(m) => "Missing argument: "@ + m@,
        AppError::RunConfigMissing => "Run configuration .jlo/config.toml not found"@,
        AppError::RunConfigInvalid(m) => "Invalid run configuration: "@ + m@,
        AppError::RepositoryDetectionFailed => "Could not detect the GitHub repository"@,
        AppError::RoleNotInConfig { role, layer } => "Role '"@ + role@ + "' is not configured for layer '"@
            + layer@ + "'"@,
        AppError::RoleNotFound(m) => "Role not found: "@ + m@,
        AppError::RequirementFileNotFound(m) => "Requirement file not found: "@ + m@,
        AppError::IssueFileNotFound(m) => "Issue file not found: "@ + m@,
        AppError::ExchangeDirectoryNotFound => "Exchange directory not found"@,
        AppError::ParseError { what, details } => "Failed to parse "@ + what@ + ": "@ + details@,
        AppError::InternalError(m) => "Internal error: "@ + m@,
        AppError::InvalidConfig(m) => "Invalid configuration: "@ + m@,
        AppError::ConfigError(m) => "Configuration error: "@ + m@,
        AppError::ExternalToolError { tool, error } => tool@ + " failed: "@ + error@,
        AppError::ComponentNotFound { name, available } => "Component '"@ + name@ + "' not found"@,
        AppError::SetupNotInitialized => "Setup is not initialized. Run 'jlo setup init' first."@,
        AppError::SetupConfigMissing => "Setup configuration .jlo/setup/tools.yml not found"@,
        AppError::WorkspaceNotFound => "No .jlo/ control plane found. Run 'jlo init' first."@,
        AppError::InvalidLayer(m) => "Invalid layer: "@ + m@,
        AppError::RoleExists { role, layer } => "Role '"@ + role@ + "' already exists in layer '"@ + layer@
            + "'"@,
        AppError::SingleRoleLayerTemplate(m) => "Layer '"@ + m@ + "' is single-role and has no role templates"@,
        AppError::WorkspaceIntegrity(m) => m@,
        AppError::WorkspaceVersionMismatch { workspace, binary } => "Workspace version "@ + workspace@
            + " is newer than binary version "@ + binary@,
    }
}

fn joined2(a: &str, b: &str) -> (r: String)
    ensures
        r@ == a@ + b@,
{
    let mut s = a.to_owned();
    s.append(b);
    s
}

fn joined4(a: &str, b: &str, c: &str, d: &str) -> (r: String)
    ensures
        r@ == a@ + b@ + c@ + d@,
{
    let mut s = a.to_owned();
    s.append(b);
    s.append(c);
    s.append(d);
    s
}

impl AppError {
    /// The text shown for this error.
    pub fn message(&self) -> (r: String)
        ensures
            r@ == error_message(*self),
    {
        match self {
            AppError::Validation(m) => m.clone(),
            AppError::MissingArgument(m) => joined2("Missing argument: ", m.as_str()),
            AppError::RunConfigMissing => "Run configuration .jlo/config.toml not found".to_owned(),
            AppError::RunConfigInvalid(m) => joined2("Invalid run configuration: ", m.as_str()),
            AppError::RepositoryDetectionFailed => "Could not detect the GitHub repository".to_owned(),
            AppError::RoleNotInConfig { role, layer } => {
                let mut s = joined4("Role '", role.as_str(), "' is not configured for layer '", layer.as_str());
                s.append("'");
                s
            },
            AppError::RoleNotFound(m) => joined2("Role not found: ", m.as_str()),
            AppError::RequirementFileNotFound(m) => joined2("Requirement file not found: ", m.as_str()),
            AppError::IssueFileNotFound(m) => joined2("Issue file not found: ", m.as_str()),
            AppError::ExchangeDirectoryNotFound => "Exchange directory not found".to_owned(),
            AppError::ParseError { what, details } => joined4("Failed to parse ", what.as_str(), ": ", details.as_str()),
            AppError::InternalError(m) => joined2("Internal error: ", m.as_str()),
            AppError::InvalidConfig(m) => joined2("Invalid configuration: ", m.as_str()),
            AppError::ConfigError(m) => joined2("Configuration error: ", m.as_str()),
            AppError::ExternalToolError { tool, error } => {
                let mut s = joined2(tool.as_str(), " failed: ");
                s.append(error.as_str());
                s
            },
            AppError::ComponentNotFound { name, available: _ } => {
                let mut s = joined2("Component '", name.as_str());
                s.append("' not found");
                s
            },
            AppError::SetupNotInitialized => "Setup is not initialized. Run 'jlo setup init' first.".to_owned(),
            AppError::SetupConfigMissing => "Setup configuration .jlo/setup/tools.yml not found".to_owned(),
            AppError::WorkspaceNotFound => "No .jlo/ control plane found. Run 'jlo init' first.".to_owned(),
            AppError::InvalidLayer(m) => joined2("Invalid layer: ", m.as_str()),
            AppError::RoleExists { role, layer } => {
                let mut s = joined4("Role '", role.as_str(), "' already exists in layer '", layer.as_str());
                s.append("'");
                s
            },
            AppError::SingleRoleLayerTemplate(m) => {
                let mut s = joined2("Layer '", m.as_str());
                s.append("' is single-role and has no role templates");
                s
            },
            AppError::WorkspaceIntegrity(m) => m.clone(),
            AppError::WorkspaceVersionMismatch { workspace, binary } => joined4(
                "Workspace version ",
                workspace.as_str(),
                " is newer than binary version ",
                binary.as_str(),
            ),
        }
    }
}

} // verus!
