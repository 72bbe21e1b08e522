//! The `template` command: what applying a role or workstream template
//! creates, and the checks made before it.

use vstd::prelude::*;
use crate::error::AppError;
use crate::layer::{Layer, layer_dir, layer_single_role};
use crate::mock_run::{safe_path_component, validate_safe_path_component};
use crate::run::contains_name;
use crate::text::{
    concat, concat3, owned, replace_all, replaced, string_views, trim, trim_str,
};

verus! {

/// What a template application created.
#[derive(Debug, Clone)]
pub enum TemplateOutcome {
    Role { layer: Layer, role: String },
    Workstream { name: String },
}

/// The path an outcome is shown as.
pub open spec fn outcome_path(o: TemplateOutcome) -> Seq<char> {
    match o {
        TemplateOutcome::Role { layer, role } => ".jules/roles/"@ + layer_dir(layer) + "/"@ + role@,
        TemplateOutcome::Workstream { name } => ".jules/workstreams/"@ + name@,
    }
}

impl TemplateOutcome {
    /// The path of what was created, for display.
    pub fn display_path(&self) -> (r: String)
        ensures
            r@ == outcome_path(*self),
    {
        match self {
            TemplateOutcome::Role { layer, role } => {
                let mut p = concat3(".jules/roles/", layer.dir_name(), "/");
                p.append(role.as_str());
                p
            },
            TemplateOutcome::Workstream { name } => concat(".jules/workstreams/", name.as_str()),
        }
    }
}

/// The templates the interactive wizard offers.
#[derive(Debug, Clone, Copy, PartialEq, Eq, Structural)]
pub enum TemplateChoice {
    Workstream,
    ObserverRole,
    DeciderRole,
}

pub open spec fn choice_label(c: TemplateChoice) -> Seq<char> {
    match c {
        TemplateChoice::Workstream => "Workstream"@,
        TemplateChoice::ObserverRole => "Observer Role"@,
        TemplateChoice::DeciderRole => "Decider Role"@,
    }
}

impl TemplateChoice {
    /// The choices, in the order the wizard lists them.
    pub fn all() -> (r: Vec<TemplateChoice>)
        ensures
            r@ == seq![
                TemplateChoice::Workstream,
                TemplateChoice::ObserverRole,
                TemplateChoice::DeciderRole,
            ],
    {
        let r = vec![
            TemplateChoice::Workstream,
            TemplateChoice::ObserverRole,
            TemplateChoice::DeciderRole,
        ];
        assert(r@ =~= seq![
            TemplateChoice::Workstream,
            TemplateChoice::ObserverRole,
            TemplateChoice::DeciderRole,
        ]);
        r
    }

    /// The label the wizard shows for the choice.
    pub fn label(self) -> (r: &'static str)
        ensures
            r@ == choice_label(self),
    {
        match self {
            TemplateChoice::Workstream => "Workstream",
            TemplateChoice::ObserverRole => "Observer Role",
            TemplateChoice::DeciderRole => "Decider Role",
        }
    }

    /// The layer of a role choice.
    pub fn layer(self) -> (r: Option<Layer>)
        ensures
            r == match self {
                TemplateChoice::Workstream => None,
                TemplateChoice::ObserverRole => Some(Layer::Observers),
                TemplateChoice::DeciderRole => Some(Layer::Decider),
            },
    {
        match self {
            TemplateChoice::Workstream => None,
            TemplateChoice::ObserverRole => Some(Layer::Observers),
            TemplateChoice::DeciderRole => Some(Layer::Decider),
        }
    }
}

/// A workstream name must be non-blank and a single directory name.
pub fn validate_workstream_name(name: &str) -> (r: Result<(), AppError>)
    ensures
        trim(name@).len() == 0 ==> (r matches Err(e) && e is Validation),
        trim(name@).len() > 0 ==> (r is Ok <==> !name@.contains('/') && !name@.contains('\\')),
        r matches Err(e) ==> e is Validation,
{
    if trim_str(name).unicode_len() == 0 {
        return Err(AppError::Validation(owned("Workstream name cannot be empty.")));
    }
    let cs = crate::text::chars_of(name);
    let mut k: usize = 0;
    while k < cs.len()
        invariant
            k <= cs.len(),
            cs@ == name@,
            forall|i: int| 0 <= i < k ==> name@[i] != '/' && name@[i] != '\\',
        decreases cs.len() - k,
    {
        if cs[k] == '/' || cs[k] == '\\' {
            return Err(AppError::Validation(owned("Workstream name must be a single directory name.")));
        }
        k = k + 1;
    }
    Ok(())
}

/// Only layers that hold several roles take role templates.
pub fn check_template_layer(layer: Layer) -> (r: Result<(), AppError>)
    ensures
        r is Ok <==> !layer_single_role(layer),
        r matches Err(e) ==> e matches AppError::SingleRoleLayerTemplate(d) && d@ == layer_dir(layer),
{
    if layer.is_single_role() {
        return Err(AppError::SingleRoleLayerTemplate(owned(layer.dir_name())));
    }
    Ok(())
}

/// The layers whose roles belong to a workstream.
pub open spec fn workstream_scoped(layer: Layer) -> bool {
    layer == Layer::Observers || layer == Layer::Decider
}

/// Where a role's workstream comes from.
#[derive(Debug, Clone)]
pub enum WorkstreamResolution {
    /// The layer's roles belong to no workstream.
    NotNeeded,
    /// The given, existing workstream.
    Use(String),
    /// Ask the user to pick or create one.
    Ask,
}

/// Resolve the workstream of a new role: none outside observers and
/// deciders; else the given one, which must exist (`exists`), or a choice
/// made interactively, which a non-interactive run cannot make.
pub fn resolve_workstream(layer: Layer, workstream_arg: Option<&str>, exists: bool, interactive: bool) -> (r:
    Result<WorkstreamResolution, AppError>)
    ensures
        !workstream_scoped(layer) ==> (r matches Ok(w) && w is NotNeeded),
        workstream_scoped(layer) ==> match workstream_arg {
            Some(ws) => if exists {
                r matches Ok(WorkstreamResolution::Use(x)) && x@ == ws@
            } else {
                r matches Err(e) && e is Validation
            },
            None => if interactive {
                r matches Ok(w) && w is Ask
            } else {
                r matches Err(e) && e is MissingArgument
            },
        },
{
    if !(layer == Layer::Observers || layer == Layer::Decider) {
        return Ok(WorkstreamResolution::NotNeeded);
    }
    match workstream_arg {
        Some(ws) => if exists {
            Ok(WorkstreamResolution::Use(owned(ws)))
        } else {
            Err(
                AppError::Validation(
                    concat3(
                        "Workstream '",
                        ws,
                        "' does not exist. Run 'jlo template' and select Workstream to create it.",
                    ),
                ),
            )
        },
        None => if interactive {
            Ok(WorkstreamResolution::Ask)
        } else {
            Err(
                AppError::MissingArgument(
                    owned(
                        "Workstream is required for observers and deciders when running non-interactively. Use --workstream or run without args to use the wizard.",
                    ),
                ),
            )
        },
    }
}

/// What the role template of `execute` scaffolds.
#[derive(Debug, Clone)]
pub struct RoleScaffold {
    pub layer: Layer,
    pub role: String,
    pub workstream: Option<String>,
    pub prompt_yaml: String,
    pub has_notes: bool,
}

/// Everything `execute` decides on.
pub struct TemplateRequest<'a> {
    /// Whether the `.jules/` workspace exists.
    pub workspace_exists: bool,
    pub layer: Layer,
    pub role_name: &'a str,
    /// The roles that already exist in the layer.
    pub existing_roles: &'a Vec<String>,
    pub workstream_arg: Option<&'a str>,
    /// The workstreams that exist.
    pub workstreams: &'a Vec<String>,
    /// The layer's prompt template, with `ROLE_NAME` where the role's name
    /// goes.
    pub prompt_template: &'a str,
}

/// The workstream a role of `layer` is created in: the given one, or
/// `generic`, for observers and deciders; none for other layers.
pub open spec fn role_workstream(layer: Layer, arg: Option<&str>) -> Option<Seq<char>> {
    if workstream_scoped(layer) {
        match arg {
            Some(ws) => Some(ws@),
            None => Some("generic"@),
        }
    } else {
        None
    }
}

/// The prompt of a new role: the template with its name in place of
/// `ROLE_NAME` and, for a workstream, `workstream: generic` pointed at it.
pub open spec fn role_prompt(template: Seq<char>, role: Seq<char>, ws: Option<Seq<char>>) -> Seq<char> {
    let p = replaced(template, "ROLE_NAME"@, role);
    match ws {
        Some(w) => replaced(p, "workstream: generic"@, "workstream: "@ + w),
        None => p,
    }
}

/// The layer that the template command's layer argument names: the layer
/// with that directory name, else `InvalidLayer` with the name.
pub fn resolve_layer(name: &str) -> (r: Result<Layer, AppError>)
    ensures
        r matches Ok(l) ==> layer_dir(l) == name@,
        (exists|l: Layer| layer_dir(l) == name@) ==> r is Ok,
        r matches Err(e) ==> (e matches AppError::InvalidLayer(n) && n@ == name@),
{
    match Layer::from_dir_name(name) {
        Some(l) => Ok(l),
        None => Err(AppError::InvalidLayer(owned(name))),
    }
}

/// Create a role from its layer's template (the `template` command with a
/// layer and a role name): the workspace must exist, the role name be a
/// valid id not yet used in the layer, and the workstream of an observer or
/// decider exist.
pub fn execute(req: &TemplateRequest) -> (r: Result<RoleScaffold, AppError>)
    ensures
        !req.workspace_exists ==> r == Err::<RoleScaffold, AppError>(AppError::WorkspaceNotFound),
        req.workspace_exists && !safe_path_component(req.role_name@) ==> (r matches Err(e)
            && e is Validation),
        req.workspace_exists && safe_path_component(req.role_name@) ==> {
            if string_views(req.existing_roles@).contains(req.role_name@) {
                r matches Err(e) && e is RoleExists
            } else {
                match role_workstream(req.layer, req.workstream_arg) {
                    Some(ws) => if string_views(req.workstreams@).contains(ws) {
                        r matches Ok(s) && s.layer == req.layer && s.role@ == req.role_name@
                            && crate::text::opt_string_view(s.workstream) == Some(ws)
                            && s.prompt_yaml@ == role_prompt(
                            req.prompt_template@,
                            req.role_name@,
                            Some(ws),
                        ) && s.has_notes == (req.layer == Layer::Observers)
                    } else {
                        r matches Err(e) && e is ConfigError
                    },
                    None => r matches Ok(s) && s.layer == req.layer && s.role@ == req.role_name@
                        && s.workstream is None && s.prompt_yaml@ == role_prompt(
                        req.prompt_template@,
                        req.role_name@,
                        None,
                    ) && s.has_notes == (req.layer == Layer::Observers),
                }
            }
        },
{
    if !req.workspace_exists {
        return Err(AppError::WorkspaceNotFound);
    }
    if !validate_safe_path_component(req.role_name) {
        return Err(
            AppError::Validation(
                concat3(
                    "Invalid role '",
                    req.role_name,
                    "': must be alphanumeric with hyphens or underscores only",
                ),
            ),
        );
    }
    if contains_name(req.existing_roles, req.role_name) {
        return Err(
            AppError::RoleExists { role: owned(req.role_name), layer: owned(req.layer.dir_name()) },
        );
    }
    let workstream: Option<String> = if req.layer == Layer::Observers || req.layer == Layer::Decider {
        match req.workstream_arg {
            Some(ws) => {
                if !contains_name(req.workstreams, ws) {
                    let mut msg = concat3("Workstream '", ws, "' does not exist. Create it with: jlo workstream new ");
                    msg.append(ws);
                    return Err(AppError::ConfigError(msg));
                }
                Some(owned(ws))
            },
            None => {
                if !contains_name(req.workstreams, "generic") {
                    return Err(
                        AppError::ConfigError(
                            owned(
                                "Default workstream 'generic' does not exist. Run 'jlo init' or create it with: jlo workstream new generic",
                            ),
                        ),
                    );
                }
                Some(owned("generic"))
            },
        }
    } else {
        None
    };
    proof {
        reveal_strlit("ROLE_NAME");
        reveal_strlit("workstream: generic");
    }
    let mut prompt_yaml = replace_all(req.prompt_template, "ROLE_NAME", req.role_name);
    if let Some(ws) = &workstream {
        let target = concat("workstream: ", ws.as_str());
        prompt_yaml = replace_all(prompt_yaml.as_str(), "workstream: generic", target.as_str());
    }
    Ok(
        RoleScaffold {
            layer: req.layer,
            role: owned(req.role_name),
            workstream,
            prompt_yaml,
            has_notes: req.layer == Layer::Observers,
        },
    )
}

} // verus!
