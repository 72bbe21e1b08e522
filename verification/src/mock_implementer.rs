//! The mock implementer's reading of requirement files: the label and id
//! that name its branch.

use vstd::prelude::*;
use crate::error::AppError;
use crate::mock::{is_valid_requirement_id, last_label_and_id, last_nonempty_field, valid_requirement_id};
use crate::layer::Layer;
use crate::mock_run::{MockConfig, prefix_of, safe_path_component, validate_safe_path_component};
use crate::run::contains_name;
use crate::text::{concat, concat3, lines, owned, string_views, trim, trim_str};

verus! {

/// The label and id of a requirement (or issue) file, read line by line:
/// the last non-empty `label:` and `id:` values. Both must be present and
/// the id must be a valid requirement id.
pub fn parse_issue_for_branch(content: &str, path: &str) -> (r: Result<(String, String), AppError>)
    ensures
        r matches Ok((label, id)) ==> last_nonempty_field(lines(content@), "label:"@) == Some(label@)
            && last_nonempty_field(lines(content@), "id:"@) == Some(id@)
            && valid_requirement_id(id@),
        r is Err <==> (last_nonempty_field(lines(content@), "label:"@) is None
            || last_nonempty_field(lines(content@), "id:"@) is None || !valid_requirement_id(
            last_nonempty_field(lines(content@), "id:"@)->0,
        )),
        r matches Err(e) ==> e is Validation,
{
    let (label, id) = last_label_and_id(content, true);
    let label = match label {
        Some(l) => l,
        None => {
            return Err(
                AppError::Validation(concat("Issue file missing label field: ", path)),
            );
        },
    };
    let id = match id {
        Some(i) => i,
        None => {
            return Err(
                AppError::Validation(concat("Issue file missing id field: ", path)),
            );
        },
    };
    if !is_valid_requirement_id(id.as_str()) {
        return Err(
            AppError::Validation(
                concat("Issue id must be 6 lowercase alphanumeric chars: ", path),
            ),
        );
    }
    Ok((label, id))
}


/// The `label` and `id` of a requirement file, as its YAML reads into them
/// (a missing or null field is `None`).
#[derive(Debug, Clone)]
pub struct RequirementMeta {
    pub label: Option<String>,
    pub id: Option<String>,
}

/// A field's text, unless it is missing or blank.
pub open spec fn present(o: Option<String>) -> Option<Seq<char>> {
    match o {
        Some(s) => if trim(s@).len() > 0 {
            Some(s@)
        } else {
            None
        },
        None => None,
    }
}

/// The label and id a requirement file names its branch with, or the error
/// text: the file must read as YAML; the label must be present and a safe
/// path component; the id must be present and six lowercase letters or
/// digits.
pub open spec fn requirement_branch_fields(meta: Result<RequirementMeta, String>, path: Seq<char>) -> Result<
    (Seq<char>, Seq<char>),
    Seq<char>,
> {
    match meta {
        Err(e) => Err("Requirement file must be valid YAML ("@ + path + "): "@ + e@),
        Ok(m) => match present(m.label) {
            None => Err("Requirement file missing label field: "@ + path),
            Some(l) => if !safe_path_component(l) {
                Err("Requirement label '"@ + l + "' is not a safe path component: "@ + path)
            } else {
                match present(m.id) {
                    None => Err("Requirement file missing id field: "@ + path),
                    Some(i) => if !valid_requirement_id(i) {
                        Err("Issue id must be 6 lowercase alphanumeric chars: "@ + path)
                    } else {
                        Ok((l, i))
                    },
                }
            },
        },
    }
}

fn present_field(o: &Option<String>) -> (r: Option<&str>)
    ensures
        crate::text::opt_view(r) == present(*o),
{
    match o {
        Some(s) => if trim_str(s.as_str()).unicode_len() > 0 {
            Some(s.as_str())
        } else {
            None
        },
        None => None,
    }
}

/// The label and id of a requirement file (its YAML read into `meta`, or
/// the parser's error), checked as `requirement_branch_fields` says; every
/// error is `InvalidConfig` with that text.
pub fn parse_requirement_for_branch(meta: &Result<RequirementMeta, String>, path: &str) -> (r: Result<
    (String, String),
    AppError,
>)
    ensures
        match requirement_branch_fields(*meta, path@) {
            Ok((l, i)) => r matches Ok(x) && x.0@ == l && x.1@ == i,
            Err(m) => r matches Err(AppError::InvalidConfig(e)) && e@ == m,
        },
{
    let m = match meta {
        Ok(m) => m,
        Err(e) => {
            let mut msg = concat3("Requirement file must be valid YAML (", path, "): ");
            msg.append(e.as_str());
            return Err(AppError::InvalidConfig(msg));
        },
    };
    let label = match present_field(&m.label) {
        Some(l) => l,
        None => {
            return Err(AppError::InvalidConfig(concat("Requirement file missing label field: ", path)));
        },
    };
    if !validate_safe_path_component(label) {
        let mut msg = concat3("Requirement label '", label, "' is not a safe path component: ");
        msg.append(path);
        return Err(AppError::InvalidConfig(msg));
    }
    let id = match present_field(&m.id) {
        Some(i) => i,
        None => {
            return Err(AppError::InvalidConfig(concat("Requirement file missing id field: ", path)));
        },
    };
    if !is_valid_requirement_id(id) {
        return Err(AppError::InvalidConfig(concat("Issue id must be 6 lowercase alphanumeric chars: ", path)));
    }
    Ok((owned(label), owned(id)))
}

/// What the mock implementer does for a requirement file.
#[derive(Debug, Clone)]
pub struct MockImplementerPlan {
    pub label: String,
    pub issue_id: String,
    /// `{prefix}{label}-{id}-{tag}`.
    pub branch_name: String,
    /// The branch the work starts from and its PR targets.
    pub base_branch: String,
}

/// Plan the mock implementer's run for a requirement file (its YAML read
/// into `meta`): its label and id (see `parse_requirement_for_branch`), a
/// label that `github-labels.json` declares, and the implementer's branch
/// prefix make the branch name; the base is the override or the default
/// branch. Every refusal is `InvalidConfig`.
pub fn plan_mock_implementer(
    config: &MockConfig,
    meta: &Result<RequirementMeta, String>,
    path: &str,
    branch: Option<&str>,
) -> (r: Result<MockImplementerPlan, AppError>)
    ensures
        match requirement_branch_fields(*meta, path@) {
            Err(m) => r matches Err(AppError::InvalidConfig(e)) && e@ == m,
            Ok((l, i)) => if !string_views(config.issue_labels@).contains(l) {
                r matches Err(AppError::InvalidConfig(e)) && e@ == "Issue label '"@ + l
                    + "' is not defined in github-labels.json"@
            } else {
                match prefix_of(config.branch_prefixes@, Layer::Implementer) {
                    None => r matches Err(e) && e is InvalidConfig,
                    Some(pre) => r matches Ok(p) && {
                        &&& p.label@ == l
                        &&& p.issue_id@ == i
                        &&& p.branch_name@ == pre + l + "-"@ + i + "-"@ + config.mock_tag@
                        &&& p.base_branch@ == match branch {
                            Some(b) => b@,
                            None => config.default_branch@,
                        }
                    },
                }
            },
        },
{
    let (label, issue_id) = parse_requirement_for_branch(meta, path)?;
    if !contains_name(&config.issue_labels, label.as_str()) {
        return Err(
            AppError::InvalidConfig(
                concat3("Issue label '", label.as_str(), "' is not defined in github-labels.json"),
            ),
        );
    }
    let prefix = config.branch_prefix(Layer::Implementer)?;
    let mut branch_name = concat(prefix, label.as_str());
    branch_name.append("-");
    branch_name.append(issue_id.as_str());
    branch_name.append("-");
    branch_name.append(config.mock_tag.as_str());
    let base_branch = match branch {
        Some(b) => owned(b),
        None => config.default_branch.clone(),
    };
    Ok(MockImplementerPlan { label, issue_id, branch_name, base_branch })
}


/// The marker file a mock implementation commits: `.{tag}`, recording the
/// tag, the issue and the time.
pub fn mock_marker(tag: &str, issue_id: &str, created: &str) -> (r: (String, String))
    ensures
        r.0@ == "."@ + tag@,
        r.1@ == "# Mock implementation marker\n# Mock tag: "@ + tag@ + "\n# Issue: "@ + issue_id@
            + "\n# Created: "@ + created@ + "\n"@,
{
    let path = concat(".", tag);
    let mut content = concat("# Mock implementation marker\n# Mock tag: ", tag);
    content.append("\n# Issue: ");
    content.append(issue_id);
    content.append("\n# Created: ");
    content.append(created);
    content.append("\n");
    (path, content)
}

} // verus!
