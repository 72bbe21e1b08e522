//! The layer strategies of `jlo run`: the checks made before a layer runs,
//! the branch it starts from, and what each layer needs to run.

use vstd::prelude::*;
use crate::data::{get, parse_yaml, untag, yaml_tree, DataValue};
use crate::error::AppError;
use crate::layer::{Layer, layer_dir, layer_on_worker_branch};
use crate::mock_run::{safe_path_component, validate_safe_path_component};
use crate::text::{concat, concat3, owned, str_eq};

verus! {

/// Runtime execution context for the run command.
#[derive(Debug, Clone)]
pub struct RunRuntimeOptions {
    /// Show assembled prompts without executing.
    pub prompt_preview: bool,
    /// Override the starting branch.
    pub branch: Option<String>,
    /// Run in mock mode (no Jules API, real git/GitHub operations).
    pub mock: bool,
    /// Skip post-execution cleanup (requirement deletion and worker-branch
    /// push).
    pub no_cleanup: bool,
}

impl Default for RunRuntimeOptions {
    fn default() -> (r: Self)
        ensures
            !r.prompt_preview && r.branch is None && !r.mock && !r.no_cleanup,
    {
        RunRuntimeOptions { prompt_preview: false, branch: None, mock: false, no_cleanup: false }
    }
}

/// What a run targets.
#[derive(Debug, Clone)]
pub struct RunTarget {
    pub layer: Layer,
    /// The role, for multi-role layers.
    pub role: Option<String>,
    /// The requirement file, for requirement-driven layers.
    pub requirement: Option<String>,
    /// The innovator task.
    pub task: Option<String>,
}

/// Check a run's target before anything is loaded: a task must be a safe
/// path component, and only innovators take one.
pub fn validate_run_target(target: &RunTarget) -> (r: Result<(), AppError>)
    ensures
        r is Ok <==> match target.task {
            Some(t) => safe_path_component(t@) && target.layer == Layer::Innovators,
            None => true,
        },
        r matches Err(e) ==> e is Validation,
{
    if let Some(task) = &target.task {
        if !validate_safe_path_component(task.as_str()) {
            return Err(
                AppError::Validation(
                    concat3(
                        "Invalid task '",
                        task.as_str(),
                        "': must be a safe path component (e.g. 'create_three_proposals')",
                    ),
                ),
            );
        }
        if target.layer != Layer::Innovators {
            return Err(AppError::Validation(owned("--task is only supported when layer is innovators")));
        }
    }
    Ok(())
}

/// The branch a layer's runs happen on: the worker branch for layers that
/// work there, else the target branch.
pub open spec fn expected_branch_of(layer: Layer, target_branch: Seq<char>, worker_branch: Seq<char>) -> Seq<char> {
    if layer_on_worker_branch(layer) {
        worker_branch
    } else {
        target_branch
    }
}

/// The branch contract of the layers: only the implementer and the
/// integrator work from the target branch; every other layer (narrator,
/// observers, decider, planner, innovators) runs on the worker branch.
pub proof fn lemma_layer_branch_contract(layer: Layer, target_branch: Seq<char>, worker_branch: Seq<char>)
    ensures
        (layer == Layer::Implementer || layer == Layer::Integrator) ==> expected_branch_of(
            layer,
            target_branch,
            worker_branch,
        ) == target_branch,
        !(layer == Layer::Implementer || layer == Layer::Integrator) ==> expected_branch_of(
            layer,
            target_branch,
            worker_branch,
        ) == worker_branch,
        expected_branch_of(Layer::Narrator, target_branch, worker_branch) == worker_branch,
        expected_branch_of(Layer::Planner, target_branch, worker_branch) == worker_branch,
{
}

/// What the run command does around a layer's own work.
#[derive(Debug, Clone)]
pub struct RunPreflight {
    /// The branch the layer's contract expects.
    pub expected_branch: String,
    /// Check the mock prerequisites before running.
    pub validate_mock: bool,
    /// Check out the expected branch again after the run.
    pub restore_branch: bool,
}

/// The error for a run on the wrong branch: it names the layer, the branch
/// the layer requires and the current branch.
pub open spec fn wrong_branch_message(layer: Layer, expected: Seq<char>, current: Seq<char>) -> Seq<char> {
    "Layer '"@ + layer_dir(layer) + "' requires branch '"@ + expected + "', but current branch is '"@ + current + "'"@
}

/// Execute the run command's checks: without a branch override, the
/// current branch (`current_branch`, read only then) must be the one the
/// layer's contract expects. Says whether mock prerequisites are checked
/// and the branch restored after a mock run.
pub fn execute(
    target: &RunTarget,
    runtime: &RunRuntimeOptions,
    target_branch: &str,
    worker_branch: &str,
    current_branch: Option<&str>,
) -> (r: Result<RunPreflight, AppError>)
    requires
        runtime.branch is None ==> current_branch is Some,
    ensures
        runtime.branch is None && current_branch.unwrap()@ != expected_branch_of(
            target.layer,
            target_branch@,
            worker_branch@,
        ) ==> (r matches Err(AppError::Validation(m)) && m@ == wrong_branch_message(
            target.layer,
            expected_branch_of(target.layer, target_branch@, worker_branch@),
            current_branch.unwrap()@,
        )),
        !(runtime.branch is None && current_branch.unwrap()@ != expected_branch_of(
            target.layer,
            target_branch@,
            worker_branch@,
        )) ==> (r matches Ok(p) && p.expected_branch@ == expected_branch_of(
            target.layer,
            target_branch@,
            worker_branch@,
        ) && p.validate_mock == runtime.mock && p.restore_branch == (runtime.mock
            && runtime.branch is None)),
{
    let expected = if target.layer.uses_worker_branch() {
        worker_branch
    } else {
        target_branch
    };
    if runtime.branch.is_none() {
        let current = match current_branch {
            Some(c) => c,
            None => {
                return Err(AppError::Validation(owned("Current branch is unknown")));
            },
        };
        if !str_eq(current, expected) {
            let mut msg = concat3("Layer '", target.layer.dir_name(), "' requires branch '");
            msg.append(expected);
            msg.append("', but current branch is '");
            msg.append(current);
            msg.append("'");
            return Err(AppError::Validation(msg));
        }
    }
    Ok(
        RunPreflight {
            expected_branch: owned(expected),
            validate_mock: runtime.mock,
            restore_branch: runtime.mock && runtime.branch.is_none(),
        },
    )
}

/// The branch a layer's session starts from: the override, else the branch
/// its contract expects.
pub fn resolve_starting_branch(layer: Layer, target_branch: &str, worker_branch: &str, branch: Option<&str>) -> (r:
    String)
    ensures
        r@ == match branch {
            Some(b) => b@,
            None => expected_branch_of(layer, target_branch@, worker_branch@),
        },
{
    match branch {
        Some(b) => owned(b),
        None => if layer.uses_worker_branch() {
            owned(worker_branch)
        } else {
            owned(target_branch)
        },
    }
}

/// What a layer needs to run, once its arguments are checked.
#[derive(Debug, Clone)]
pub struct LayerPlan {
    /// The roles the run reports.
    pub roles: Vec<String>,
    /// The requirement file to check and read, for requirement-driven
    /// layers outside mock mode.
    pub requirement: Option<String>,
    /// The requirement file to clean up once the run succeeds.
    pub cleanup_requirement: Option<String>,
}

/// The arguments each layer takes.
pub open spec fn layer_args_ok(
    layer: Layer,
    mock: bool,
    role: Option<Seq<char>>,
    requirement: Option<Seq<char>>,
    task: Option<Seq<char>>,
    role_exists: bool,
) -> bool {
    match layer {
        Layer::Observers => role matches Some(r) && safe_path_component(r) && (mock || role_exists),
        Layer::Innovators => (role matches Some(r) && safe_path_component(r)) && (mock || role_exists)
            && (task matches Some(t) && t == "create_three_proposals"@),
        Layer::Planner => mock || requirement is Some,
        Layer::Implementer => mock || requirement is Some,
        _ => true,
    }
}

/// The kind of error a layer's argument check reports first: `1` for a
/// missing argument, `2` for an invalid one, `3` for a role without a
/// definition, `0` when the arguments pass.
pub open spec fn layer_args_problem(
    layer: Layer,
    mock: bool,
    role: Option<Seq<char>>,
    requirement: Option<Seq<char>>,
    task: Option<Seq<char>>,
    role_exists: bool,
) -> int {
    match layer {
        Layer::Observers => match role {
            None => 1,
            Some(r) => if !safe_path_component(r) {
                2
            } else if !mock && !role_exists {
                3
            } else {
                0
            },
        },
        Layer::Innovators => match role {
            None => 1,
            Some(r) => if mock {
                match task {
                    None => 1,
                    Some(t) => if t != "create_three_proposals"@ || !safe_path_component(r) {
                        2
                    } else {
                        0
                    },
                }
            } else if !safe_path_component(r) {
                2
            } else if !role_exists {
                3
            } else {
                match task {
                    None => 1,
                    Some(t) => if t != "create_three_proposals"@ {
                        2
                    } else {
                        0
                    },
                }
            },
        },
        Layer::Planner | Layer::Implementer => if !mock && requirement is None {
            1
        } else {
            0
        },
        _ => 0,
    }
}

/// The text of a role-not-found error.
pub open spec fn role_not_found_message(layer: Layer, role: Seq<char>) -> Seq<char> {
    layer_dir(layer) + "/roles/"@ + role + " (role.yml not found)"@
}

/// The text of an invalid-role error.
pub open spec fn invalid_role_message(role: Seq<char>) -> Seq<char> {
    "Invalid role '"@ + role + "': must be alphanumeric with hyphens or underscores only"@
}

/// The text of the error a layer's argument check reports first (see
/// `layer_args_problem` for its kind).
pub open spec fn layer_args_message(
    layer: Layer,
    mock: bool,
    role: Option<Seq<char>>,
    requirement: Option<Seq<char>>,
    task: Option<Seq<char>>,
    role_exists: bool,
) -> Seq<char> {
    match layer {
        Layer::Observers => match role {
            None => if mock {
                "Role is required for observers in mock mode"@
            } else {
                "Role is required for observers"@
            },
            Some(r) => if !safe_path_component(r) {
                invalid_role_message(r)
            } else {
                role_not_found_message(layer, r)
            },
        },
        Layer::Innovators => if mock {
            crate::mock_run::proposal_args_message(role, task)
        } else {
            match role {
                None => "Role is required for innovators"@,
                Some(r) => if !safe_path_component(r) {
                    invalid_role_message(r)
                } else if !role_exists {
                    role_not_found_message(layer, r)
                } else {
                    match task {
                        None => "--task is required for innovators (expected: create_three_proposals)"@,
                        Some(t) => "Invalid innovator task '"@ + t + "'"@,
                    }
                },
            }
        },
        _ => "Requirement path is required for "@ + layer_dir(layer),
    }
}

/// Whether an error is of the kind `layer_args_problem` names.
pub open spec fn error_of_kind(e: AppError, kind: int) -> bool {
    ||| kind == 1 && e is MissingArgument
    ||| kind == 2 && e is Validation
    ||| kind == 3 && e is RoleNotFound
}

pub open spec fn opt_string_seq(o: Option<String>) -> Option<Seq<char>> {
    crate::text::opt_string_view(o)
}

/// A layer's strategy: what it needs to run.
pub trait LayerStrategy {
    /// The layer the strategy runs.
    fn layer(&self) -> (r: Layer);
}

/// The narrator layer: summarizes recent changes.
pub struct NarratorLayer;

/// The observers layer: one observer role per run.
pub struct ObserversLayer;

/// The decider layer: triages pending events.
pub struct DeciderLayer;

/// The planner layer: analyses one requirement.
pub struct PlannerLayer;

/// The implementer layer: implements one requirement.
pub struct ImplementerLayer;

/// The innovators layer: one persona and task per run.
pub struct InnovatorsLayer;

/// The integrator layer.
pub struct IntegratorLayer;

impl LayerStrategy for NarratorLayer {
    fn layer(&self) -> (r: Layer)
        ensures
            r == Layer::Narrator,
    {
        Layer::Narrator
    }
}

impl LayerStrategy for ObserversLayer {
    fn layer(&self) -> (r: Layer)
        ensures
            r == Layer::Observers,
    {
        Layer::Observers
    }
}

impl LayerStrategy for DeciderLayer {
    fn layer(&self) -> (r: Layer)
        ensures
            r == Layer::Decider,
    {
        Layer::Decider
    }
}

impl LayerStrategy for PlannerLayer {
    fn layer(&self) -> (r: Layer)
        ensures
            r == Layer::Planner,
    {
        Layer::Planner
    }
}

impl LayerStrategy for ImplementerLayer {
    fn layer(&self) -> (r: Layer)
        ensures
            r == Layer::Implementer,
    {
        Layer::Implementer
    }
}

impl LayerStrategy for InnovatorsLayer {
    fn layer(&self) -> (r: Layer)
        ensures
            r == Layer::Innovators,
    {
        Layer::Innovators
    }
}

impl LayerStrategy for IntegratorLayer {
    fn layer(&self) -> (r: Layer)
        ensures
            r == Layer::Integrator,
    {
        Layer::Integrator
    }
}

/// The strategy of each layer.
pub enum Strategy {
    Narrator(NarratorLayer),
    Observers(ObserversLayer),
    Decider(DeciderLayer),
    Planner(PlannerLayer),
    Implementer(ImplementerLayer),
    Innovators(InnovatorsLayer),
    Integrator(IntegratorLayer),
}

pub open spec fn strategy_layer(s: Strategy) -> Layer {
    match s {
        Strategy::Narrator(_) => Layer::Narrator,
        Strategy::Observers(_) => Layer::Observers,
        Strategy::Decider(_) => Layer::Decider,
        Strategy::Planner(_) => Layer::Planner,
        Strategy::Implementer(_) => Layer::Implementer,
        Strategy::Innovators(_) => Layer::Innovators,
        Strategy::Integrator(_) => Layer::Integrator,
    }
}

impl LayerStrategy for Strategy {
    fn layer(&self) -> (r: Layer)
        ensures
            r == strategy_layer(*self),
    {
        match self {
            Strategy::Narrator(s) => s.layer(),
            Strategy::Observers(s) => s.layer(),
            Strategy::Decider(s) => s.layer(),
            Strategy::Planner(s) => s.layer(),
            Strategy::Implementer(s) => s.layer(),
            Strategy::Innovators(s) => s.layer(),
            Strategy::Integrator(s) => s.layer(),
        }
    }
}

/// Get the strategy for a specific layer.
pub fn get_layer_strategy(layer: Layer) -> (r: Strategy)
    ensures
        strategy_layer(r) == layer,
{
    match layer {
        Layer::Narrator => Strategy::Narrator(NarratorLayer),
        Layer::Decider => Strategy::Decider(DeciderLayer),
        Layer::Planner => Strategy::Planner(PlannerLayer),
        Layer::Implementer => Strategy::Implementer(ImplementerLayer),
        Layer::Observers => Strategy::Observers(ObserversLayer),
        Layer::Innovators => Strategy::Innovators(InnovatorsLayer),
        Layer::Integrator => Strategy::Integrator(IntegratorLayer),
    }
}

impl Strategy {
    /// Check the arguments of a run of the strategy's layer and say what the
    /// run needs. `role_exists` tells whether the given role has a
    /// definition in the layer.
    pub fn plan(&self, target: &RunTarget, mock: bool, role_exists: bool) -> (r: Result<LayerPlan, AppError>)
        requires
            target.layer == strategy_layer(*self),
        ensures
            r is Ok <==> layer_args_ok(
                target.layer,
                mock,
                opt_string_seq(target.role),
                opt_string_seq(target.requirement),
                opt_string_seq(target.task),
                role_exists,
            ),
            r matches Err(e) ==> crate::error::error_payload(e) == layer_args_message(
                target.layer,
                mock,
                opt_string_seq(target.role),
                opt_string_seq(target.requirement),
                opt_string_seq(target.task),
                role_exists,
            ),
            r matches Err(e) ==> error_of_kind(
                e,
                layer_args_problem(
                    target.layer,
                    mock,
                    opt_string_seq(target.role),
                    opt_string_seq(target.requirement),
                    opt_string_seq(target.task),
                    role_exists,
                ),
            ),
            r matches Ok(p) ==> {
                &&& crate::text::string_views(p.roles@) == match target.layer {
                    Layer::Observers => seq![target.role.unwrap()@],
                    Layer::Innovators => seq![target.role.unwrap()@],
                    _ => seq![layer_dir(target.layer)],
                }
                &&& opt_string_seq(p.requirement) == if !mock && (target.layer == Layer::Planner
                    || target.layer == Layer::Implementer) {
                    opt_string_seq(target.requirement)
                } else {
                    None
                }
                &&& opt_string_seq(p.cleanup_requirement) == if target.layer == Layer::Implementer {
                    opt_string_seq(target.requirement)
                } else {
                    None
                }
            },
    {
        let layer = target.layer;
        let mut roles: Vec<String> = Vec::new();
        let mut requirement: Option<String> = None;
        let mut cleanup: Option<String> = None;
        match self {
            Strategy::Observers(_) => {
                let role = match &target.role {
                    Some(r) => r,
                    None => {
                        return Err(
                            AppError::MissingArgument(
                                owned(
                                    if mock {
                                        "Role is required for observers in mock mode"
                                    } else {
                                        "Role is required for observers"
                                    },
                                ),
                            ),
                        );
                    },
                };
                if !validate_safe_path_component(role.as_str()) {
                    return Err(invalid_role(role.as_str()));
                }
                if !mock && !role_exists {
                    return Err(role_not_found(layer, role.as_str()));
                }
                roles.push(role.clone());
            },
            Strategy::Innovators(_) => {
                if mock {
                    let (role, _) = crate::mock_run::innovator_proposal_args(
                        opt_str(&target.role),
                        opt_str(&target.task),
                    )?;
                    roles.push(owned(role));
                } else {
                    let role = match &target.role {
                        Some(r) => r,
                        None => {
                            return Err(AppError::MissingArgument(owned("Role is required for innovators")));
                        },
                    };
                    if !validate_safe_path_component(role.as_str()) {
                        return Err(invalid_role(role.as_str()));
                    }
                    if !role_exists {
                        return Err(role_not_found(layer, role.as_str()));
                    }
                    let task = match &target.task {
                        Some(t) => t,
                        None => {
                            return Err(
                                AppError::MissingArgument(
                                    owned(
                                        "--task is required for innovators (expected: create_three_proposals)",
                                    ),
                                ),
                            );
                        },
                    };
                    let _ = innovator_task_file(task.as_str())?;
                    roles.push(role.clone());
                }
            },
            Strategy::Planner(_) | Strategy::Implementer(_) => {
                if !mock {
                    match &target.requirement {
                        Some(p) => {
                            requirement = Some(p.clone());
                        },
                        None => {
                            proof {
                                reveal_strlit("");
                            }
                            return Err(
                                AppError::MissingArgument(
                                    concat3("Requirement path is required for ", layer.dir_name(), ""),
                                ),
                            );
                        },
                    }
                }
                if layer == Layer::Implementer {
                    cleanup = match &target.requirement {
                        Some(p) => Some(p.clone()),
                        None => None,
                    };
                }
                roles.push(owned(layer.dir_name()));
            },
            _ => {
                roles.push(owned(layer.dir_name()));
            },
        }
        Ok(LayerPlan { roles, requirement, cleanup_requirement: cleanup })
    }
}

fn opt_str(o: &Option<String>) -> (r: Option<&str>)
    ensures
        crate::text::opt_view(r) == opt_string_seq(*o),
{
    match o {
        Some(s) => Some(s.as_str()),
        None => None,
    }
}

fn invalid_role(role: &str) -> (r: AppError)
    ensures
        r matches AppError::Validation(m) && m@ == "Invalid role '"@ + role@
            + "': must be alphanumeric with hyphens or underscores only"@,
{
    AppError::Validation(
        concat3("Invalid role '", role, "': must be alphanumeric with hyphens or underscores only"),
    )
}

fn role_not_found(layer: Layer, role: &str) -> (r: AppError)
    ensures
        r matches AppError::RoleNotFound(m) && m@ == role_not_found_message(layer, role@),
{
    let mut msg = concat(layer.dir_name(), "/roles/");
    msg.append(role);
    msg.append(" (role.yml not found)");
    AppError::RoleNotFound(msg)
}

/// The task file of an innovator task; the only task is
/// `create_three_proposals`.
pub fn innovator_task_file(task: &str) -> (r: Result<&'static str, AppError>)
    ensures
        task@ == "create_three_proposals"@ ==> (r matches Ok(f) && f@ == "create_three_proposals.yml"@),
        task@ != "create_three_proposals"@ ==> (r matches Err(AppError::Validation(m)) && m@
            == "Invalid innovator task '"@ + task@ + "'"@),
{
    if str_eq(task, "create_three_proposals") {
        Ok("create_three_proposals.yml")
    } else {
        Err(AppError::Validation(concat3("Invalid innovator task '", task, "'")))
    }
}

/// The task file of an innovator phase: `creation` and `refinement` have
/// one each.
pub fn resolve_innovator_task(phase: &str) -> (r: Result<&'static str, AppError>)
    ensures
        phase@ == "creation"@ ==> (r matches Ok(f) && f@ == "create_idea.yml"@),
        phase@ == "refinement"@ ==> (r matches Ok(f) && f@ == "refine_proposal.yml"@),
        phase@ != "creation"@ && phase@ != "refinement"@ ==> (r matches Err(AppError::Validation(m)) && m@
            == "Unknown innovator phase '"@ + phase@ + "': must be 'creation' or 'refinement'"@),
{
    proof {
        reveal_strlit("creation");
        reveal_strlit("refinement");
        assert("creation"@[0] != "refinement"@[0]);
    }
    if str_eq(phase, "creation") {
        Ok("create_idea.yml")
    } else if str_eq(phase, "refinement") {
        Ok("refine_proposal.yml")
    } else {
        Err(
            AppError::Validation(
                concat3("Unknown innovator phase '", phase, "': must be 'creation' or 'refinement'"),
            ),
        )
    }
}

/// The path of an innovator phase's task file in the innovators' task
/// directory `tasks_dir`; an unknown phase is refused as
/// `resolve_innovator_task` refuses it.
pub fn innovator_task_path(tasks_dir: &str, phase: &str) -> (r: Result<String, AppError>)
    ensures
        phase@ == "creation"@ ==> (r matches Ok(p) && p@ == tasks_dir@ + "/"@ + "create_idea.yml"@),
        phase@ == "refinement"@ ==> (r matches Ok(p) && p@ == tasks_dir@ + "/"@ + "refine_proposal.yml"@),
        phase@ != "creation"@ && phase@ != "refinement"@ ==> (r matches Err(AppError::Validation(m)) && m@
            == "Unknown innovator phase '"@ + phase@ + "': must be 'creation' or 'refinement'"@),
{
    let file = resolve_innovator_task(phase)?;
    Ok(concat3(tasks_dir, "/", file))
}

/// The task an innovator phase runs: the content of its task file
/// (`content`, read from `task_path`; `None` when it cannot be read). An
/// unreadable file is refused with a message naming the phase and the path.
pub fn innovator_task_content(phase: &str, task_path: &str, content: Option<String>) -> (r: Result<String, AppError>)
    ensures
        match content {
            Some(c) => r matches Ok(x) && x@ == c@,
            None => r matches Err(AppError::Validation(m)) && m@ == "No task file for innovator phase '"@
                + phase@ + "': expected "@ + task_path@,
        },
{
    match content {
        Some(c) => Ok(c),
        None => {
            let mut msg = concat3("No task file for innovator phase '", phase, "': expected ");
            msg.append(task_path);
            Err(AppError::Validation(msg))
        },
    }
}

/// The task file of an implementer requirement: `{label}.yml`.
pub fn resolve_implementer_task(label: &str) -> (r: String)
    ensures
        r@ == label@ + ".yml"@,
{
    concat(label, ".yml")
}

/// The label a requirement file declares.
pub open spec fn requirement_label(doc: DataValue) -> Option<Seq<char>> {
    match get(doc, "label"@) {
        Some(v) => match untag(v) {
            DataValue::Text(s) => if s@.len() > 0 {
                Some(s@)
            } else {
                None
            },
            _ => None,
        },
        None => None,
    }
}

/// Extract the label of a requirement from its YAML content: a non-empty
/// `label` that is a safe path component.
pub fn extract_requirement_label(requirement_content: &str) -> (r: Result<String, AppError>)
    ensures
        match yaml_tree(requirement_content@) {
            Err(_) => r matches Err(e) && e is Validation,
            Ok(doc) => match requirement_label(doc) {
                Some(l) => if safe_path_component(l) {
                    r matches Ok(x) && x@ == l
                } else {
                    r matches Err(e) && e is Validation
                },
                None => r matches Err(e) && e is Validation,
            },
        },
{
    let doc = match parse_yaml(requirement_content) {
        Ok(d) => d,
        Err(msg) => {
            return Err(AppError::Validation(concat("Failed to parse requirement YAML: ", msg.as_str())));
        },
    };
    let label = match doc.get("label") {
        Some(v) => match v.as_text() {
            Some(s) => s,
            None => {
                return Err(
                    AppError::Validation(owned("Requirement file must contain a non-empty 'label' field")),
                );
            },
        },
        None => {
            return Err(
                AppError::Validation(owned("Requirement file must contain a non-empty 'label' field")),
            );
        },
    };
    if label.unicode_len() == 0 {
        return Err(
            AppError::Validation(owned("Requirement file must contain a non-empty 'label' field")),
        );
    }
    if !validate_safe_path_component(label) {
        return Err(
            AppError::Validation(concat3("Invalid label '", label, "': must be a safe path component")),
        );
    }
    Ok(owned(label))
}

/// A planner's prompt: the layer prompt, then the requirement's path and
/// content.
pub fn planner_prompt(prompt: &str, requirement_path: &str, requirement_content: &str) -> (r: String)
    ensures
        r@ == prompt@ + "\n---\n# Requirement Content\n"@ + "File: "@ + requirement_path@ + "\n\n"@
            + requirement_content@,
{
    let mut p = concat(prompt, "\n---\n# Requirement Content\n");
    p.append("File: ");
    p.append(requirement_path);
    p.append("\n\n");
    p.append(requirement_content);
    p
}

/// An implementer's prompt: the layer prompt, then the requirement's
/// content.
pub fn implementer_prompt(prompt: &str, requirement_content: &str) -> (r: String)
    ensures
        r@ == prompt@ + "\n---\n# Requirement Content\n"@ + requirement_content@,
{
    let mut p = concat(prompt, "\n---\n# Requirement Content\n");
    p.append(requirement_content);
    p
}

/// The worker-branch push that follows the cleanup of a processed
/// requirement.
#[derive(Debug, Clone)]
pub struct CleanupPush {
    pub change_token: String,
    pub commit_message: String,
    pub pr_title: String,
    pub pr_body: String,
}

/// After a run: the requirement to clean up, unless cleanup is skipped or
/// the run left none.
pub fn cleanup_requirement<'a>(runtime: &RunRuntimeOptions, plan_cleanup: Option<&'a str>) -> (r: Option<&'a str>)
    ensures
        r == if runtime.no_cleanup {
            None
        } else {
            plan_cleanup
        },
{
    if runtime.no_cleanup {
        None
    } else {
        plan_cleanup
    }
}

/// The push that publishes a requirement's cleanup (not made in mock runs).
pub fn cleanup_push(requirement_id: &str) -> (r: CleanupPush)
    ensures
        r.change_token@ == "requirement-cleanup-"@ + requirement_id@,
        r.commit_message@ == "jules: clean requirement "@ + requirement_id@,
        r.pr_title@ == "chore: clean requirement "@ + requirement_id@,
        r.pr_body@ == "Automated cleanup for processed requirement `"@ + requirement_id@
            + "`.\n\n- remove requirement artifact\n- remove source event artifacts"@,
{
    CleanupPush {
        change_token: concat("requirement-cleanup-", requirement_id),
        commit_message: concat("jules: clean requirement ", requirement_id),
        pr_title: concat("chore: clean requirement ", requirement_id),
        pr_body: concat3(
            "Automated cleanup for processed requirement `",
            requirement_id,
            "`.\n\n- remove requirement artifact\n- remove source event artifacts",
        ),
    }
}


/// Whether a pending-events directory holds an event: one of its entries
/// (path and whether it is a file) is a file with the `yml` extension.
pub fn has_pending_events(entries: &Vec<(String, bool)>) -> (r: bool)
    ensures
        r == exists|i: int|
            0 <= i < entries@.len() && entries@[i].1 && #[trigger] pending_event_name(entries@[i].0@),
{
    let mut k: usize = 0;
    while k < entries.len()
        invariant
            k <= entries.len(),
            forall|i: int| 0 <= i < k ==> !(entries@[i].1 && #[trigger] pending_event_name(entries@[i].0@)),
        decreases entries.len() - k,
    {
        if entries[k].1 {
            match crate::path::path_extension(entries[k].0.as_str()) {
                Some(ext) => {
                    if str_eq(ext, "yml") {
                        assert(pending_event_name(entries@[k as int].0@));
                        return true;
                    }
                },
                None => {},
            }
        }
        k = k + 1;
    }
    false
}

/// A path whose file name has the `yml` extension.
pub open spec fn pending_event_name(p: Seq<char>) -> bool {
    match crate::path::file_name(p) {
        Some(n) => crate::path::extension(n) == Some("yml"@),
        None => false,
    }
}

} // verus!
