//! The `run` command's decisions: which configured roles run, from which
//! branch they start, and the prompt each role is given.

use vstd::prelude::*;
use crate::config::RunConfig;
use crate::error::AppError;
use crate::layer::{Layer, layer_dir};
use crate::text::{concat, join_strings, joined, owned, str_eq, string_views};

verus! {

/// Options for the run command.
#[derive(Debug, Clone)]
pub struct RunOptions {
    /// Target layer to run.
    pub layer: Layer,
    /// Specific roles to run (`None` = all configured roles).
    pub roles: Option<Vec<String>>,
    /// Show assembled prompts without executing.
    pub dry_run: bool,
    /// Run without calling the Jules API.
    pub mock: bool,
    /// Override the starting branch.
    pub branch: Option<String>,
}

/// Result of a run execution.
#[derive(Debug)]
pub struct RunResult {
    /// Roles that were processed.
    pub roles: Vec<String>,
    /// Whether this was a dry run.
    pub dry_run: bool,
    /// Session IDs from Jules (empty for a dry run or a mock run).
    pub sessions: Vec<String>,
}

/// The roles the configuration lists for a layer; layers without a role
/// list in the configuration have none.
pub open spec fn configured_roles(config: RunConfig, layer: Layer) -> Seq<String> {
    match layer {
        Layer::Observers => config.agents.observers@,
        Layer::Decider => config.agents.deciders@,
        Layer::Planner => config.agents.planners@,
        Layer::Implementer => config.agents.implementers@,
        _ => seq![],
    }
}

fn configured(config: &RunConfig, layer: Layer) -> (r: Vec<String>)
    ensures
        r@ == configured_roles(*config, layer),
{
    let r = match layer {
        Layer::Observers => config.agents.observers.clone(),
        Layer::Decider => config.agents.deciders.clone(),
        Layer::Planner => config.agents.planners.clone(),
        Layer::Implementer => config.agents.implementers.clone(),
        _ => Vec::new(),
    };
    assert(r@ =~= configured_roles(*config, layer));
    r
}

/// Whether `name` is one of `list`.
pub fn contains_name(list: &Vec<String>, name: &str) -> (r: bool)
    ensures
        r == string_views(list@).contains(name@),
{
    let mut k: usize = 0;
    while k < list.len()
        invariant
            k <= list.len(),
            forall|i: int| 0 <= i < k ==> list@[i]@ != name@,
        decreases list.len() - k,
    {
        if str_eq(list[k].as_str(), name) {
            assert(string_views(list@)[k as int] == name@);
            return true;
        }
        k = k + 1;
    }
    proof {
        if string_views(list@).contains(name@) {
            let i = choose|i: int| 0 <= i < string_views(list@).len() && string_views(list@)[i] == name@;
            assert(list@[i]@ == name@);
        }
    }
    false
}

/// `role` is the first of `requested` that `configured` does not list.
pub open spec fn first_unconfigured(requested: Seq<String>, configured: Seq<String>, role: Seq<char>) -> bool {
    exists|i: int|
        0 <= i < requested.len() && requested[i]@ == role && !string_views(configured).contains(role)
            && forall|j: int| 0 <= j < i ==> string_views(configured).contains(#[trigger] requested[j]@)
}

/// Resolve which roles to run for a layer: all configured roles when none
/// are requested, else the requested roles, each of which must be
/// configured for the layer.
pub fn resolve_roles(config: &RunConfig, layer: Layer, requested: Option<&Vec<String>>) -> (r: Result<
    Vec<String>,
    AppError,
>)
    ensures
        requested is None ==> (r matches Ok(v) && v@ == configured_roles(*config, layer)),
        requested matches Some(req) ==> (r is Ok <==> forall|i: int|
            0 <= i < req@.len() ==> string_views(configured_roles(*config, layer)).contains(
                #[trigger] req@[i]@,
            )),
        requested matches Some(req) ==> (r matches Ok(v) ==> v@ == req@),
        requested matches Some(req) ==> (r matches Err(e) ==> (e matches AppError::RoleNotInConfig {
            role,
            layer: l,
        } && l@ == layer_dir(layer) && first_unconfigured(req@, configured_roles(*config, layer), role@))),
{
    let configured = configured(config, layer);
    match requested {
        None => Ok(configured),
        Some(roles) => {
            let mut k: usize = 0;
            while k < roles.len()
                invariant
                    k <= roles.len(),
                    requested == Some(roles),
                    configured@ == configured_roles(*config, layer),
                    forall|i: int| 0 <= i < k ==> string_views(configured@).contains(#[trigger] roles@[i]@),
                decreases roles.len() - k,
            {
                if !contains_name(&configured, roles[k].as_str()) {
                    let role = roles[k].clone();
                    proof {
                        assert(roles@[k as int]@ == role@);
                        assert(requested matches Some(req) ==> req@ == roles@);
                        assert(first_unconfigured(roles@, configured@, role@));
                    }
                    return Err(AppError::RoleNotInConfig { role, layer: owned(layer.dir_name()) });
                }
                k = k + 1;
            }
            let out = roles.clone();
            assert(out@ =~= roles@);
            Ok(out)
        },
    }
}

/// The branch a run starts from: the override when one is given; else the
/// default branch for implementers and `jules` for every other layer.
pub open spec fn starting_branch_of(options: RunOptions, config: RunConfig) -> Seq<char> {
    match options.branch {
        Some(b) => b@,
        None => if options.layer == Layer::Implementer {
            config.run.default_branch@
        } else {
            "jules"@
        },
    }
}

/// Determine the branch a run starts from.
pub fn starting_branch(options: &RunOptions, config: &RunConfig) -> (r: String)
    ensures
        r@ == starting_branch_of(*options, *config),
{
    match &options.branch {
        Some(b) => b.clone(),
        None => if options.layer == Layer::Implementer {
            config.run.default_branch.clone()
        } else {
            owned("jules")
        },
    }
}

/// What a run does once its roles are known.
#[derive(Debug)]
pub enum RunPlan {
    /// No role is configured for the layer: nothing runs.
    NothingConfigured { dry_run: bool },
    /// Show each role's prompt, start nothing.
    DryRun { roles: Vec<String>, starting_branch: String },
    /// Start one session per role.
    Sessions { roles: Vec<String>, starting_branch: String, mock: bool },
}

/// Decide what `jlo run` does for the given options and configuration.
pub fn plan_run(config: &RunConfig, options: &RunOptions) -> (r: Result<RunPlan, AppError>)
    ensures
        match resolve_roles_spec(*config, *options) {
            None => (r matches Err(e) && e is RoleNotInConfig),
            Some(roles) => (r matches Ok(plan) && if roles.len() == 0 {
                plan == RunPlan::NothingConfigured { dry_run: options.dry_run }
            } else if options.dry_run {
                plan matches RunPlan::DryRun { roles: rs, starting_branch: b } && rs@ == roles
                    && b@ == starting_branch_of(*options, *config)
            } else {
                plan matches RunPlan::Sessions { roles: rs, starting_branch: b, mock: m } && rs@
                    == roles && b@ == starting_branch_of(*options, *config) && m == options.mock
            }),
        },
{
    let roles = resolve_roles(config, options.layer, options.roles.as_ref())?;
    if roles.len() == 0 {
        return Ok(RunPlan::NothingConfigured { dry_run: options.dry_run });
    }
    let branch = starting_branch(options, config);
    if options.dry_run {
        Ok(RunPlan::DryRun { roles, starting_branch: branch })
    } else {
        Ok(RunPlan::Sessions { roles, starting_branch: branch, mock: options.mock })
    }
}

/// The roles `resolve_roles` gives for these options, `None` when it refuses
/// them.
pub open spec fn resolve_roles_spec(config: RunConfig, options: RunOptions) -> Option<Seq<String>> {
    match options.roles {
        None => Some(configured_roles(config, options.layer)),
        Some(req) => if forall|i: int|
            0 <= i < req@.len() ==> string_views(configured_roles(config, options.layer)).contains(
                #[trigger] req@[i]@,
            ) {
            Some(req@)
        } else {
            None
        },
    }
}

/// The parts of a role's prompt, in order: the prompt itself, then the layer
/// contracts, the role configuration and the notes where there are any.
pub open spec fn prompt_parts(
    prompt: Seq<char>,
    contracts: Option<Seq<char>>,
    role_config: Option<Seq<char>>,
    notes: Seq<(String, String)>,
) -> Seq<Seq<char>> {
    let a = seq![prompt];
    let b = match contracts {
        Some(c) => a.push("\n---\n# Layer Contracts\n"@ + c),
        None => a,
    };
    let c = match role_config {
        Some(rc) => b.push("\n---\n# Role Configuration\n"@ + rc),
        None => b,
    };
    if notes.len() == 0 {
        c
    } else {
        c.push("\n---\n# Notes\n"@ + joined(notes.map_values(|n: (String, String)| note_text(n)), "\n\n"@))
    }
}

/// One note as it appears in a prompt: its file name as a heading, then its
/// content.
pub open spec fn note_text(n: (String, String)) -> Seq<char> {
    "## "@ + n.0@ + "\n"@ + n.1@
}

/// Assemble the full prompt of a role from its `prompt.yml`, the layer's
/// `contracts.yml` and the role's `role.yml` where they exist, and its notes
/// as (file name, content) pairs.
pub fn assemble_prompt(
    prompt: &str,
    contracts: Option<&str>,
    role_config: Option<&str>,
    notes: &Vec<(String, String)>,
) -> (r: String)
    ensures
        r@ == joined(
            prompt_parts(
                prompt@,
                crate::text::opt_view(contracts),
                crate::text::opt_view(role_config),
                notes@,
            ),
            "\n"@,
        ),
{
    let mut parts: Vec<String> = Vec::new();
    parts.push(owned(prompt));
    if let Some(c) = contracts {
        parts.push(concat("\n---\n# Layer Contracts\n", c));
    }
    if let Some(rc) = role_config {
        parts.push(concat("\n---\n# Role Configuration\n", rc));
    }
    if notes.len() > 0 {
        let mut texts: Vec<String> = Vec::new();
        let mut k: usize = 0;
        while k < notes.len()
            invariant
                k <= notes.len(),
                string_views(texts@) =~= notes@.subrange(0, k as int).map_values(
                    |n: (String, String)| note_text(n),
                ),
            decreases notes.len() - k,
        {
            let mut t = concat("## ", notes[k].0.as_str());
            t.append("\n");
            t.append(notes[k].1.as_str());
            assert(t@ == note_text(notes@[k as int]));
            let ghost before = string_views(texts@);
            texts.push(t);
            assert(string_views(texts@) =~= before.push(note_text(notes@[k as int])));
            assert(notes@.subrange(0, k + 1) =~= notes@.subrange(0, k as int).push(notes@[k as int]));
            assert(string_views(texts@) =~= notes@.subrange(0, k + 1).map_values(
                |n: (String, String)| note_text(n),
            ));
            k = k + 1;
        }
        assert(notes@.subrange(0, notes@.len() as int) =~= notes@);
        let body = join_strings(&texts, "\n\n");
        parts.push(concat("\n---\n# Notes\n", body.as_str()));
    }
    assert(string_views(parts@) =~= prompt_parts(
        prompt@,
        crate::text::opt_view(contracts),
        crate::text::opt_view(role_config),
        notes@,
    ));
    join_strings(&parts, "\n")
}

/// The result a run reports for its plan: the roles it processed, whether it
/// was a dry run, and the ids of the sessions it started (`started`, handed
/// in by whoever ran them). A dry run and a mock run carry no session ids.
pub fn run_result(plan: RunPlan, started: Vec<String>) -> (r: RunResult)
    ensures
        match plan {
            RunPlan::NothingConfigured { dry_run } => r.roles@.len() == 0 && r.dry_run == dry_run
                && r.sessions@.len() == 0,
            RunPlan::DryRun { roles, .. } => r.roles@ == roles@ && r.dry_run && r.sessions@.len() == 0,
            RunPlan::Sessions { roles, mock, .. } => r.roles@ == roles@ && !r.dry_run && if mock {
                r.sessions@.len() == 0
            } else {
                r.sessions@ == started@
            },
        },
{
    match plan {
        RunPlan::NothingConfigured { dry_run } => RunResult { roles: Vec::new(), dry_run, sessions: Vec::new() },
        RunPlan::DryRun { roles, .. } => RunResult { roles, dry_run: true, sessions: Vec::new() },
        RunPlan::Sessions { roles, mock, .. } => {
            let sessions = if mock {
                Vec::new()
            } else {
                started
            };
            RunResult { roles, dry_run: false, sessions }
        },
    }
}

/// Each layer's roles come from that layer's own list in the
/// configuration: the observers', deciders', planners' and implementers'
/// lists are read for their layers and no other list matters, and a run
/// with no roles requested runs exactly those.
pub proof fn lemma_roles_come_from_the_layers_own_list(c1: RunConfig, c2: RunConfig, options: RunOptions)
    requires
        options.roles is None,
    ensures
        configured_roles(c1, Layer::Observers) == c1.agents.observers@,
        configured_roles(c1, Layer::Decider) == c1.agents.deciders@,
        configured_roles(c1, Layer::Planner) == c1.agents.planners@,
        configured_roles(c1, Layer::Implementer) == c1.agents.implementers@,
        c1.agents.planners@ == c2.agents.planners@ ==> configured_roles(c1, Layer::Planner) == configured_roles(
            c2,
            Layer::Planner,
        ),
        c1.agents.implementers@ == c2.agents.implementers@ ==> configured_roles(c1, Layer::Implementer)
            == configured_roles(c2, Layer::Implementer),
        options.layer == Layer::Planner ==> resolve_roles_spec(c1, options) == Some(c1.agents.planners@),
{
}

/// Where a run starts: an explicit branch always wins; otherwise only the
/// implementer starts from the configured default branch, and every other
/// layer starts from `jules` whatever the configuration says.
pub proof fn lemma_starting_branch_rule(options: RunOptions, c1: RunConfig, c2: RunConfig)
    ensures
        options.branch matches Some(b) ==> starting_branch_of(options, c1) == b@,
        options.branch is None && options.layer == Layer::Implementer ==> starting_branch_of(options, c1)
            == c1.run.default_branch@,
        options.branch is None && options.layer != Layer::Implementer ==> starting_branch_of(options, c1)
            == "jules"@ && starting_branch_of(options, c1) == starting_branch_of(options, c2),
{
}

} // verus!
