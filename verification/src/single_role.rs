//! Runs of the requirement-driven layers (planner, implementer) from an
//! issue file: dispatched to a workflow outside CI, run as a session in CI.

use vstd::prelude::*;
use crate::config::ExecutionConfig;
use crate::error::AppError;
use crate::layer::{Layer, layer_requirement_driven};
use crate::path::{path_segments, segments};
use crate::requirement_path::{has_component, path_starts_with, starts_with_path, validate_issue_path};
use crate::text::{joined, owned};

verus! {

/// The workflow that runs a requirement-driven layer.
pub open spec fn workflow_of(layer: Layer) -> Seq<char> {
    if layer == Layer::Planner {
        "jules-run-planner.yml"@
    } else {
        "jules-run-implementer.yml"@
    }
}

/// Each requirement-driven layer dispatches its own workflow, named after
/// the layer: `jules-run-planner.yml` and `jules-run-implementer.yml`,
/// never the other's.
pub proof fn lemma_workflow_names_its_layer(layer: Layer)
    requires
        layer == Layer::Planner || layer == Layer::Implementer,
    ensures
        workflow_of(layer) == "jules-run-"@ + crate::layer::layer_dir(layer) + ".yml"@,
        workflow_of(Layer::Planner) != workflow_of(Layer::Implementer),
{
    reveal_strlit("jules-run-planner.yml");
    reveal_strlit("jules-run-implementer.yml");
    reveal_strlit("jules-run-");
    reveal_strlit(".yml");
    reveal_strlit("planner");
    reveal_strlit("implementer");
    assert("jules-run-planner.yml"@ =~= "jules-run-"@ + "planner"@ + ".yml"@);
    assert("jules-run-implementer.yml"@ =~= "jules-run-"@ + "implementer"@ + ".yml"@);
    assert("jules-run-planner.yml"@[10] != "jules-run-implementer.yml"@[10]);
}

/// `Path::strip_prefix` on canonical paths: the components of `p` after
/// those of `base`, joined by `/`; `p` itself when it is not within `base`.
pub open spec fn relative_to(p: Seq<char>, base: Seq<char>) -> Seq<char> {
    if path_starts_with(p, base) {
        joined(segments(p).subrange(segments(base).len() as int, segments(p).len() as int), "/"@)
    } else {
        p
    }
}

/// The path of `p` relative to `base`, as `relative_to` states it.
pub fn relative_path(p: &str, base: &str) -> (r: String)
    ensures
        r@ == relative_to(p@, base@),
{
    if !starts_with_path(p, base) {
        return owned(p);
    }
    let ps = path_segments(p);
    let bs = path_segments(base);
    let mut parts: Vec<String> = Vec::new();
    let mut k: usize = bs.len();
    let ghost tail = segments(p@).subrange(segments(base@).len() as int, segments(p@).len() as int);
    while k < ps.len()
        invariant
            bs.len() == segments(base@).len() <= k <= ps.len(),
            ps.len() == segments(p@).len(),
            forall|j: int| 0 <= j < ps.len() ==> #[trigger] ps[j]@ == segments(p@)[j],
            tail == segments(p@).subrange(segments(base@).len() as int, segments(p@).len() as int),
            crate::text::string_views(parts@) == tail.subrange(0, k - bs.len()),
        decreases ps.len() - k,
    {
        let ghost before = parts@;
        parts.push(owned(ps[k]));
        assert(crate::text::string_views(parts@) =~= crate::text::string_views(before).push(ps[k as int]@));
        assert(tail.subrange(0, k + 1 - bs.len()) =~= tail.subrange(0, k - bs.len()).push(tail[k - bs.len()]));
        k = k + 1;
    }
    assert(tail.subrange(0, tail.len() as int) =~= tail);
    crate::text::join_strings(&parts, "/")
}

/// What a requirement-driven run does once its issue file is checked.
#[derive(Debug, Clone)]
pub enum SingleRolePlan {
    /// Outside CI: dispatch the layer's workflow for the issue file (its
    /// path relative to the repository root), or only say so in a preview.
    LocalDispatch { workflow: String, issue_file: String, prompt_preview: bool },
    /// In CI: run a session from the starting branch, or show its prompt.
    Session { starting_branch: String, prompt_preview: bool },
}

/// Execute a requirement-driven layer (planner or implementer) for an issue
/// file: check the file (`exists`, its canonical path and that of the
/// exchange directory), then dispatch its workflow outside CI, or run a
/// session in CI from the override branch, the default branch for the
/// implementer, or the Jules branch for the planner.
pub fn execute(
    layer: Layer,
    issue_path: &str,
    exists: bool,
    canonical_path: &str,
    canonical_exchange_dir: Option<&str>,
    canonical_root: &str,
    prompt_preview: bool,
    branch: Option<&str>,
    is_ci: bool,
    run: &ExecutionConfig,
) -> (r: Result<SingleRolePlan, AppError>)
    requires
        layer_requirement_driven(layer),
    ensures
        !exists ==> (r matches Err(e) && e is IssueFileNotFound),
        exists && canonical_exchange_dir is None ==> r == Err::<SingleRolePlan, AppError>(
            AppError::ExchangeDirectoryNotFound,
        ),
        exists ==> (canonical_exchange_dir matches Some(x) ==> {
            if !(path_starts_with(canonical_path@, x@) && has_component(canonical_path@, "issues"@)) {
                r matches Err(e) && e is Validation
            } else if !is_ci {
                r matches Ok(SingleRolePlan::LocalDispatch { workflow, issue_file, prompt_preview: pp })
                    && workflow@ == workflow_of(layer) && issue_file@ == relative_to(
                    canonical_path@,
                    canonical_root@,
                ) && pp == prompt_preview
            } else {
                r matches Ok(SingleRolePlan::Session { starting_branch, prompt_preview: pp })
                    && pp == prompt_preview && starting_branch@ == match branch {
                    Some(b) => b@,
                    None => if layer == Layer::Implementer {
                        run.default_branch@
                    } else {
                        run.jules_branch@
                    },
                }
            }
        }),
{
    let info = validate_issue_path(issue_path, exists, canonical_path, canonical_exchange_dir)?;
    if !is_ci {
        let workflow = if layer == Layer::Planner {
            owned("jules-run-planner.yml")
        } else {
            owned("jules-run-implementer.yml")
        };
        let issue_file = relative_path(info.canonical_path.as_str(), canonical_root);
        return Ok(SingleRolePlan::LocalDispatch { workflow, issue_file, prompt_preview });
    }
    let starting_branch = match branch {
        Some(b) => owned(b),
        None => if layer == Layer::Implementer {
            run.default_branch.clone()
        } else {
            run.jules_branch.clone()
        },
    };
    Ok(SingleRolePlan::Session { starting_branch, prompt_preview })
}

} // verus!
